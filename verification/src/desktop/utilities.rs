//! The utilities of the desktop: captures, recordings, the clipboard, the idle
//! inhibitor and the game mode.
//!
//! Times are milliseconds of a clock that never goes back.

use vstd::prelude::*;

use crate::command::{
    came_of, command_line, grants, leads, run, run_once, runs_of, CommandSpec, CommandView, Run,
    RunState, Runs,
};
use crate::desktop::clipboard::{
    clear_line, clear_spec, decode_line, decode_spec, entry_identifier, list_line, list_spec,
    listed_in, parse_list, EntryView, ListRow, ListRowView,
};
use crate::desktop::commands::UtilityCommand;
use crate::desktop::domain::{
    domain_of, terminal_or, CapabilityAvailability, ClipboardEntry, DesktopDomainId,
    DesktopDomainState, DesktopDomainValue, RecordingState, RecordingStatus, StableId,
};
use crate::desktop::registry::failed_as;
use crate::desktop::wire::{copy_optional, optional_text};
use crate::error::{
    error_is, fails_with, fault_of, invalid, invalid_input, malformed, refused, seen, told,
    ErrorKind, Fault, SessionError,
};
use crate::ids::{random_uuid, uuid_hyphenated, uuid_text};
use crate::paths::{absolute_path, has_zero, is_absolute, join_path, joined};
use crate::rows::{views, views_of_push};
use crate::text::{
    after_prefix, alphanumeric_char, byte_len, chars_of, decode_text, has_prefix, has_suffix,
    hex_digits, hex_text, is_ascii_alphanumeric, is_blank, prefixed, same_text, starts_with,
    ends_with, string_of, strip_prefix, text_bytes, trim_end, trim_end_chars, is_text,
};
use crate::wiping::wipe;
use vstd::utf8::{decode_utf8, encode_utf8, is_ascii_chars_encode_utf8, valid_utf8};

verus! {

/// How long a helper may take to acknowledge a change of a recording.
pub const RECORDING_ACK_TIMEOUT: u64 = 5_000;

/// How long pasting an entry of the clipboard may take.
pub const PASTE_TIMEOUT: u64 = 10_000;

/// How long a service may take to answer on the bus.
pub const BUS_TIMEOUT: u64 = 2_000;

/// The program that takes captures.
pub const CAPTURE_HELPER: &'static str = "sleepy-capture-helper";

// ---------------------------------------------------------------------------
// Captures
// ---------------------------------------------------------------------------

pub open spec fn is_output_char(c: char) -> bool {
    is_ascii_alphanumeric(c) || c == '-' || c == '_' || c == '.'
}

pub open spec fn is_output_name(s: Seq<char>) -> bool {
    &&& s.len() > 0
    &&& byte_len(s) <= 128
    &&& forall|i: int| 0 <= i < s.len() ==> is_output_char(#[trigger] s[i])
}

/// The name of an output: its identifier, without the prefix where it has one.
pub open spec fn output_in(id: Seq<char>) -> Result<Seq<char>, Fault> {
    let name = match after_prefix(id, "output:"@) {
        Some(name) => name,
        None => id,
    };
    if is_output_name(name) {
        Ok(name)
    } else {
        refused("invalid output ID"@)
    }
}

pub fn output_name(output_id: &StableId) -> (name: Result<String, SessionError>)
    ensures
        seen(name) == output_in(output_id.0@),
{
    let chars = chars_of(output_id.as_str());
    let name = match strip_prefix(chars.as_slice(), "output:") {
        Some(name) => name,
        None => chars.as_slice(),
    };
    let text = string_of(name);
    if name.len() == 0 || text_bytes(text.as_str()) > 128 {
        return invalid_input("invalid output ID");
    }
    for i in 0..name.len()
        invariant
            name@ == text@,
            output_in(output_id.0@) == if is_output_name(text@) {
                Ok::<Seq<char>, Fault>(text@)
            } else {
                refused("invalid output ID"@)
            },
            forall|j: int| 0 <= j < i ==> is_output_char(#[trigger] name@[j]),
    {
        let c: char = name[i];
        if !(alphanumeric_char(c) || c == '-' || c == '_' || c == '.') {
            assert(!is_output_char(text@[i as int]));
            return invalid_input("invalid output ID");
        }
    }
    Ok(text)
}

/// Whether a capture can be written to a path.
pub open spec fn output_path_fits(path: Seq<char>) -> Result<(), Fault> {
    if is_absolute(encode_utf8(path)) && !encode_utf8(path).contains(0u8) {
        Ok(())
    } else {
        refused("utility output path is invalid"@)
    }
}

pub fn validate_output_path(path: &str) -> (valid: Result<(), SessionError>)
    ensures
        told(valid) == output_path_fits(path@),
{
    if !absolute_path(path.as_bytes()) || has_zero(path.as_bytes()) {
        return invalid_input("utility output path is invalid");
    }
    Ok(())
}

pub open spec fn screenshot_line(name: Seq<char>, path: Seq<char>) -> CommandView {
    command_line(
        CAPTURE_HELPER@,
        seq![
            "screenshot"@,
            "--interactive-consent"@,
            "--output-id"@,
            name,
            "--output-path"@,
            path,
        ],
    )
}

pub open spec fn pick_color_line() -> CommandView {
    command_line(CAPTURE_HELPER@, seq!["pick-color"@, "--interactive-consent"@, "--clipboard"@])
}

pub open spec fn record_line(name: Seq<char>, path: Seq<char>, audio: bool) -> CommandView {
    let start = seq![
        "record"@,
        "--interactive-consent"@,
        "--output-id"@,
        name,
        "--output-path"@,
        path,
    ];
    let status = seq!["--status-fd"@, "1"@];
    command_line(
        CAPTURE_HELPER@,
        if audio {
            start.push("--audio"@) + status
        } else {
            start + status
        },
    )
}

/// The program that a command runs; nothing where it runs none.
pub open spec fn action_line(command: UtilityCommand, path: Seq<char>) -> Result<
    Option<CommandView>,
    Fault,
> {
    match command {
        UtilityCommand::Screenshot { output_id } => match output_path_fits(path) {
            Err(fault) => Err(fault),
            Ok(()) => match output_in(output_id.0@) {
                Err(fault) => Err(fault),
                Ok(name) => Ok(Some(screenshot_line(name, path))),
            },
        },
        UtilityCommand::PickColor => Ok(Some(pick_color_line())),
        UtilityCommand::StartRecording { output_id, audio } => match output_path_fits(path) {
            Err(fault) => Err(fault),
            Ok(()) => match output_in(output_id.0@) {
                Err(fault) => Err(fault),
                Ok(name) => Ok(Some(record_line(name, path, audio))),
            },
        },
        _ => Ok(None),
    }
}

/// What an optional program or a failure says.
pub open spec fn spec_seen(spec: Result<Option<CommandSpec>, SessionError>) -> Result<
    Option<CommandView>,
    Fault,
> {
    match spec {
        Ok(Some(spec)) => Ok(Some(spec@)),
        Ok(None) => Ok(None),
        Err(error) => Err(fault_of(error)),
    }
}

fn screenshot_spec(name: &str, path: &str) -> (spec: CommandSpec)
    ensures
        spec@ == screenshot_line(name@, path@),
{
    let spec = CommandSpec::new(CAPTURE_HELPER).arg("screenshot").arg(
        "--interactive-consent",
    ).arg("--output-id").arg(name).arg("--output-path").arg(path);
    assert(spec@.args =~= screenshot_line(name@, path@).args);
    spec
}

fn record_spec(name: &str, path: &str, audio: bool) -> (spec: CommandSpec)
    ensures
        spec@ == record_line(name@, path@, audio),
{
    let start = CommandSpec::new(CAPTURE_HELPER).arg("record").arg("--interactive-consent").arg(
        "--output-id",
    ).arg(name).arg("--output-path").arg(path);
    let chosen = if audio {
        start.arg("--audio")
    } else {
        start
    };
    let spec = chosen.arg("--status-fd").arg("1");
    assert(spec@.args =~= record_line(name@, path@, audio).args);
    spec
}

/// The program that a command runs; nothing where it runs none.
pub fn action_spec(command: &UtilityCommand, output_path: &str) -> (spec: Result<
    Option<CommandSpec>,
    SessionError,
>)
    ensures
        spec_seen(spec) == action_line(*command, output_path@),
{
    match command {
        UtilityCommand::Screenshot { output_id } => {
            if let Err(error) = validate_output_path(output_path) {
                return Err(error);
            }
            match output_name(output_id) {
                Ok(name) => Ok(Some(screenshot_spec(name.as_str(), output_path))),
                Err(error) => Err(error),
            }
        },
        UtilityCommand::PickColor => {
            let spec = CommandSpec::new(CAPTURE_HELPER).arg("pick-color").arg(
                "--interactive-consent",
            ).arg("--clipboard");
            assert(spec@.args =~= pick_color_line().args);
            Ok(Some(spec))
        },
        UtilityCommand::StartRecording { output_id, audio } => {
            if let Err(error) = validate_output_path(output_path) {
                return Err(error);
            }
            match output_name(output_id) {
                Ok(name) => Ok(Some(record_spec(name.as_str(), output_path, *audio))),
                Err(error) => Err(error),
            }
        },
        _ => Ok(None),
    }
}

/// Whether taking a capture ends in a way.
pub open spec fn captured_by(
    runs: Runs,
    command: UtilityCommand,
    path: Seq<char>,
    end: Result<(), Fault>,
) -> bool {
    match action_line(command, path) {
        Err(fault) => end == Err::<(), Fault>(fault),
        Ok(None) => end == Err::<(), Fault>((ErrorKind::Unsupported, "capture command required"@)),
        Ok(Some(line)) => leads(runs, line, end, |_output: Seq<u8>| end == Ok::<(), Fault>(())),
    }
}

/// Runs the program of a capture, once, and nothing else.
pub fn execute_capture_with<R: FnOnce(&CommandSpec) -> Run>(
    runner: R,
    command: &UtilityCommand,
    output_path: &str,
) -> (done: Result<(), SessionError>)
    requires
        action_line(*command, output_path@) matches Ok(Some(line)) ==> grants(runner, line),
    ensures
        captured_by(runs_of(runner), *command, output_path@, told(done)),
{
    let spec = match action_spec(command, output_path) {
        Ok(Some(spec)) => spec,
        Ok(None) => {
            return Err(SessionError::new(ErrorKind::Unsupported, "capture command required"));
        },
        Err(error) => {
            return Err(error);
        },
    };
    match run_once(runner, spec) {
        Ok(_) => Ok(()),
        Err(error) => Err(error),
    }
}

// ---------------------------------------------------------------------------
// Names of captures
// ---------------------------------------------------------------------------

/// The text that `chrono::DateTime`'s `format` writes for the seconds since the
/// epoch in UTC; nothing for a time that `chrono` cannot hold.
pub uninterp spec fn time_text(seconds: i64, pattern: Seq<char>) -> Option<Seq<char>>;

/// The date and the time of day, as they stand in the name of a recording.
pub const STAMP_PATTERN: &'static str = "%Y%m%d_%H-%M-%S";

/// The first second after the year 9999.
pub const YEAR_10000: i64 = 253_402_300_800;

pub open spec fn is_stamp_char(c: char) -> bool {
    ('0' <= c && c <= '9') || c == '_' || c == '-'
}

/// The date and the time of day of the seconds since the epoch.
pub open spec fn time_stamp(seconds: i64) -> Option<Seq<char>> {
    time_text(seconds, STAMP_PATTERN@)
}

/// Formats the seconds since the epoch with `chrono::DateTime::from_timestamp`
/// and `format`. What is written depends on the seconds and the pattern alone.
/// From 1970 to 9999 there always is such a time, and the text of date and time
/// of day has seventeen characters: digits, an underscore and two hyphens. A
/// pattern that is not one makes `format` fail, so only the one pattern is
/// admitted.
#[verifier::external_body]
fn format_time(seconds: i64, pattern: &str) -> (stamp: Option<String>)
    requires
        pattern@ == STAMP_PATTERN@,
    ensures
        optional_text(stamp) == time_text(seconds, pattern@),
        0 <= seconds < YEAR_10000 ==> stamp is Some && stamp->0@.len() == 17 && (forall|i: int|
            0 <= i < 17 ==> is_stamp_char(#[trigger] stamp->0@[i])),
{
    match chrono::DateTime::from_timestamp(seconds, 0) {
        Some(time) => Some(time.format(pattern).to_string()),
        None => None,
    }
}

/// The name of a recording that begins at a time.
pub open spec fn recording_title(stamp: Seq<char>, id: u128) -> Seq<char> {
    "recording_"@ + stamp + seq!['_'] + hex_digits(id as nat, 32) + ".mp4"@
}

/// The name of a recording, by when it begins and an identifier; nothing for a
/// time that cannot be written.
pub fn recording_name(seconds: i64, id: u128) -> (name: Option<String>)
    ensures
        match time_stamp(seconds) {
            Some(stamp) => name is Some && name->0@ == recording_title(stamp, id),
            None => name is None,
        },
        0 <= seconds < YEAR_10000 ==> name is Some && is_recording_name(name->0@),
{
    let stamp = match format_time(seconds, STAMP_PATTERN) {
        Some(stamp) => stamp,
        None => {
            return None;
        },
    };
    let mut name = "recording_".to_owned();
    name.append(stamp.as_str());
    name.push('_');
    name.append(hex_text(id, 32).as_str());
    name.append(".mp4");
    proof {
        assert(name@ =~= recording_title(stamp@, id));
        if 0 <= seconds < YEAR_10000 {
            recordings_can_be_deleted(stamp@, id);
        }
    }
    Some(name)
}

/// A name for a recording that begins now, different from every other.
pub fn fresh_recording_name(seconds: i64) -> (name: Option<String>)
    ensures
        match time_stamp(seconds) {
            Some(stamp) => name is Some && exists|id: u128| #[trigger]
                recording_title(stamp, id) == name->0@,
            None => name is None,
        },
        0 <= seconds < YEAR_10000 ==> name is Some && is_recording_name(name->0@),
{
    recording_name(seconds, random_uuid())
}

/// The name of a capture: a prefix, an identifier and an extension.
pub open spec fn capture_title(prefix: Seq<char>, id: u128, extension: Seq<char>) -> Seq<char> {
    prefix + seq!['-'] + uuid_hyphenated(id) + seq!['.'] + extension
}

pub fn capture_name(prefix: &str, id: u128, extension: &str) -> (name: String)
    ensures
        name@ == capture_title(prefix@, id, extension@),
{
    let mut name = prefix.to_owned();
    name.push('-');
    name.append(uuid_text(id).as_str());
    name.push('.');
    name.append(extension);
    assert(name@ =~= capture_title(prefix@, id, extension@));
    name
}

/// A name for a capture, different from every other.
pub fn fresh_capture_name(prefix: &str, extension: &str) -> (name: String)
    ensures
        exists|id: u128| #[trigger] capture_title(prefix@, id, extension@) == name@,
{
    capture_name(prefix, random_uuid(), extension)
}

/// The path of a capture below the directory of captures.
pub open spec fn capture_at(root: Seq<u8>, name: Seq<char>) -> Result<Seq<char>, Fault> {
    let path = joined(root, encode_utf8(name));
    if valid_utf8(path) {
        Ok(decode_utf8(path))
    } else {
        refused("output path is not UTF-8"@)
    }
}

pub fn output_path(root: &[u8], name: &str) -> (path: Result<String, SessionError>)
    ensures
        seen(path) == capture_at(root@, name@),
{
    let bytes = join_path(root, name.as_bytes());
    match decode_text(bytes.as_slice()) {
        Some(path) => Ok(path),
        None => invalid_input("output path is not UTF-8"),
    }
}

/// Whether a capture below the directory of captures ends in a way, for a
/// screenshot under a name with this identifier.
pub open spec fn captured_below(
    runs: Runs,
    command: UtilityCommand,
    root: Seq<u8>,
    id: u128,
    end: Result<(), Fault>,
) -> bool {
    if command is Screenshot {
        match capture_at(root, capture_title("screenshot"@, id, "png"@)) {
            Err(fault) => end == Err::<(), Fault>(fault),
            Ok(path) => captured_by(runs, command, path, end),
        }
    } else {
        captured_by(runs, command, "unused"@, end)
    }
}

/// Whether a runner runs the program of a capture below the directory of captures.
pub open spec fn grants_capture<R: FnOnce(&CommandSpec) -> Run>(
    runner: R,
    command: UtilityCommand,
    root: Seq<u8>,
    id: u128,
) -> bool {
    if command is Screenshot {
        capture_at(root, capture_title("screenshot"@, id, "png"@)) matches Ok(path) ==> (
        action_line(command, path) matches Ok(Some(line)) ==> grants(runner, line))
    } else {
        action_line(command, "unused"@) matches Ok(Some(line)) ==> grants(runner, line)
    }
}

/// Takes a capture: a screenshot goes to a new file below the directory of
/// captures, a color to the clipboard.
pub fn capture_below<R: FnOnce(&CommandSpec) -> Run>(
    runner: R,
    command: &UtilityCommand,
    root: &[u8],
    id: u128,
) -> (done: Result<(), SessionError>)
    requires
        grants_capture(runner, *command, root@, id),
    ensures
        captured_below(runs_of(runner), *command, root@, id, told(done)),
{
    match command {
        UtilityCommand::Screenshot { .. } => {
            let name = capture_name("screenshot", id, "png");
            match output_path(root, name.as_str()) {
                Ok(path) => execute_capture_with(runner, command, path.as_str()),
                Err(error) => Err(error),
            }
        },
        _ => execute_capture_with(runner, command, "unused"),
    }
}

/// Takes a capture under a name different from every other.
pub fn take_capture<R: FnOnce(&CommandSpec) -> Run>(
    runner: R,
    command: &UtilityCommand,
    root: &[u8],
) -> (done: Result<(), SessionError>)
    requires
        forall|id: u128| #[trigger] grants_capture(runner, *command, root@, id),
    ensures
        exists|id: u128| #[trigger]
            captured_below(runs_of(runner), *command, root@, id, told(done)),
{
    let id: u128 = random_uuid();
    capture_below(runner, command, root, id)
}

/// The program that records an output to a file below the directory of captures.
pub open spec fn recorder_line(
    root: Seq<u8>,
    name: Seq<char>,
    output_id: Seq<char>,
    audio: bool,
) -> Result<CommandView, Fault> {
    match capture_at(root, name) {
        Err(fault) => Err(fault),
        Ok(path) => match output_path_fits(path) {
            Err(fault) => Err(fault),
            Ok(()) => match output_in(output_id) {
                Err(fault) => Err(fault),
                Ok(output) => Ok(record_line(output, path, audio)),
            },
        },
    }
}

pub fn recorder_spec(root: &[u8], name: &str, output_id: &StableId, audio: bool) -> (spec: Result<
    CommandSpec,
    SessionError,
>)
    ensures
        seen(spec) == recorder_line(root@, name@, output_id.0@, audio),
{
    let path = match output_path(root, name) {
        Ok(path) => path,
        Err(error) => {
            return Err(error);
        },
    };
    if let Err(error) = validate_output_path(path.as_str()) {
        return Err(error);
    }
    match output_name(output_id) {
        Ok(output) => Ok(record_spec(output.as_str(), path.as_str(), audio)),
        Err(error) => Err(error),
    }
}

pub open spec fn is_recording_char(c: char) -> bool {
    is_ascii_alphanumeric(c) || c == '_' || c == '-' || c == '.'
}

/// Whether a text can be the name of a recording in the directory of captures.
pub open spec fn is_recording_name(s: Seq<char>) -> bool {
    &&& starts_with(s, "recording_"@)
    &&& ends_with(s, ".mp4"@)
    &&& byte_len(s) <= 96
    &&& forall|i: int| 0 <= i < s.len() ==> is_recording_char(#[trigger] s[i])
}

/// Accepts the name of a recording that may be deleted.
pub fn check_recording_name(recording_id: &StableId) -> (checked: Result<(), SessionError>)
    ensures
        told(checked) == if is_recording_name(recording_id.0@) {
            Ok(())
        } else {
            refused("invalid recording basename"@)
        },
{
    let name = recording_id.as_str();
    let chars = chars_of(name);
    let s = chars.as_slice();
    if !has_prefix(s, chars_of("recording_").as_slice()) || !has_suffix(
        s,
        chars_of(".mp4").as_slice(),
    ) || text_bytes(name) > 96 {
        return invalid_input("invalid recording basename");
    }
    for i in 0..s.len()
        invariant
            s@ == recording_id.0@,
            forall|j: int| 0 <= j < i ==> is_recording_char(#[trigger] s@[j]),
    {
        let c: char = s[i];
        if !(alphanumeric_char(c) || c == '_' || c == '-' || c == '.') {
            assert(!is_recording_char(s@[i as int]));
            return invalid_input("invalid recording basename");
        }
    }
    Ok(())
}

/// What is known of the file of a recording.
#[derive(Debug, Clone, Copy, PartialEq, Eq, Structural)]
pub struct RecordingFile {
    pub regular: bool,
    pub uid: u32,
}

/// Accepts the file of a recording that may be deleted: a regular file of the
/// user of the session.
pub fn check_recording_file(found: Option<RecordingFile>, uid: u32) -> (checked: Result<
    (),
    SessionError,
>)
    ensures
        told(checked) == match deletion_fault(found, uid) {
            Some(fault) => Err(fault),
            None => Ok(()),
        },
{
    match found {
        None => Err(SessionError::new(ErrorKind::NotFound, "recording not found")),
        Some(file) => if file.regular && file.uid == uid {
            Ok(())
        } else {
            Err(
                SessionError::new(
                    ErrorKind::PermissionDenied,
                    "recording must be a regular file owned by the session user",
                ),
            )
        },
    }
}

/// Why the file of a recording may not be deleted, if it may not.
pub open spec fn deletion_fault(found: Option<RecordingFile>, uid: u32) -> Option<Fault> {
    match found {
        None => Some((ErrorKind::NotFound, "recording not found"@)),
        Some(file) => if file.regular && file.uid == uid {
            None
        } else {
            Some(
                (
                    ErrorKind::PermissionDenied,
                    "recording must be a regular file owned by the session user"@,
                ),
            )
        },
    }
}

/// Whether a look for the file of a recording can have found one that may be deleted.
pub open spec fn found_deletable<
    L: FnOnce(&StableId) -> Result<Option<RecordingFile>, SessionError>,
>(look: L, recording_id: &StableId, uid: u32) -> bool {
    exists|found: Result<Option<RecordingFile>, SessionError>| #[trigger]
        call_ensures(look, (recording_id,), found) && found is Ok && deletion_fault(
            found->Ok_0,
            uid,
        ) is None
}

/// Deletes a recording. Nothing is looked for under a name that no recording has, and
/// nothing is removed but a regular file of the user of the session.
pub fn delete_recording<
    L: FnOnce(&StableId) -> Result<Option<RecordingFile>, SessionError>,
    R: FnOnce(&StableId) -> Result<(), SessionError>,
>(recording_id: &StableId, uid: u32, look: L, remove: R) -> (done: Result<(), SessionError>)
    requires
        is_recording_name(recording_id.0@) ==> call_requires(look, (recording_id,)),
        is_recording_name(recording_id.0@) && found_deletable(look, recording_id, uid)
            ==> call_requires(remove, (recording_id,)),
    ensures
        if !is_recording_name(recording_id.0@) {
            told(done) == refused::<()>("invalid recording basename"@)
        } else {
            exists|found: Result<Option<RecordingFile>, SessionError>| #[trigger]
                call_ensures(look, (recording_id,), found) && match found {
                    Err(error) => done == Err::<(), SessionError>(error),
                    Ok(found) => match deletion_fault(found, uid) {
                        Some(fault) => told(done) == Err::<(), Fault>(fault),
                        None => call_ensures(remove, (recording_id,), done),
                    },
                }
        },
{
    if let Err(error) = check_recording_name(recording_id) {
        return Err(error);
    }
    let found = look(recording_id);
    match found {
        Err(error) => Err(error),
        Ok(file) => match check_recording_file(file, uid) {
            Err(error) => Err(error),
            Ok(()) => remove(recording_id),
        },
    }
}

proof fn hex_digits_are_plain(n: nat, width: nat)
    ensures
        hex_digits(n, width).len() == width,
        forall|i: int|
            0 <= i < width ==> is_recording_char(#[trigger] hex_digits(n, width)[i])
                && hex_digits(n, width)[i] <= '\u{7f}',
    decreases width,
{
    if width > 0 {
        hex_digits_are_plain(n / 16, (width - 1) as nat);
        let last = crate::text::hex_char((n % 16) as int);
        assert(is_recording_char(last) && last <= '\u{7f}');
    }
}

/// What is recorded can be deleted: the name that a recording gets from 1970 to
/// 9999 is one that may be deleted.
pub proof fn recordings_can_be_deleted(stamp: Seq<char>, id: u128)
    requires
        stamp.len() == 17,
        forall|i: int| 0 <= i < 17 ==> is_stamp_char(#[trigger] stamp[i]),
    ensures
        is_recording_name(recording_title(stamp, id)),
{
    let digits = hex_digits(id as nat, 32);
    let name = recording_title(stamp, id);
    hex_digits_are_plain(id as nat, 32);
    reveal_strlit("recording_");
    reveal_strlit(".mp4");
    assert(name.len() == 64);
    assert(name.take(10) =~= "recording_"@);
    assert(name.skip(60) =~= ".mp4"@);
    assert forall|i: int| 0 <= i < name.len() implies is_recording_char(#[trigger] name[i])
        && name[i] <= '\u{7f}' by {
        if i < 10 {
            assert(name[i] == "recording_"@[i]);
        } else if i < 27 {
            assert(name[i] == stamp[i - 10]);
        } else if i == 27 {
            assert(name[i] == '_');
        } else if i < 60 {
            assert(name[i] == digits[i - 28]);
        } else {
            assert(name[i] == ".mp4"@[i - 60]);
        }
    }
    is_ascii_chars_encode_utf8(name);
}

// ---------------------------------------------------------------------------
// Recordings
// ---------------------------------------------------------------------------

/// What is being recorded, and whether a helper records it.
pub struct RecordingRuntime {
    pub state: RecordingState,
    /// Whether there is a helper whose status can be read.
    pub running: bool,
}

pub struct RecordingView {
    pub status: RecordingStatus,
    pub recording_id: Option<Seq<char>>,
    pub output_id: Option<Seq<char>>,
}

pub open spec fn recording_view(state: RecordingState) -> RecordingView {
    RecordingView {
        status: state.status,
        recording_id: optional_text(state.recording_id),
        output_id: optional_text(state.output_id),
    }
}

pub struct RuntimeView {
    pub state: RecordingView,
    pub running: bool,
}

impl View for RecordingRuntime {
    type V = RuntimeView;

    open spec fn view(&self) -> RuntimeView {
        RuntimeView { state: recording_view(self.state), running: self.running }
    }
}

/// Nothing is recorded.
pub open spec fn nothing_recorded() -> RuntimeView {
    RuntimeView {
        state: RecordingView {
            status: RecordingStatus::Inactive,
            recording_id: None,
            output_id: None,
        },
        running: false,
    }
}

/// Where the helper of a recording stands.
#[derive(Debug, Clone, Copy, PartialEq, Eq, Structural)]
pub enum HelperStatus {
    Alive,
    Exited,
}

/// The recording after a look at its helper: a helper that is gone records
/// nothing.
pub open spec fn after_look(runtime: RuntimeView, helper: HelperStatus) -> RuntimeView {
    if runtime.running && helper == HelperStatus::Exited {
        nothing_recorded()
    } else {
        runtime
    }
}

/// What pausing changes the status to.
pub open spec fn toggled(status: RecordingStatus) -> Result<RecordingStatus, Fault> {
    match status {
        RecordingStatus::Recording => Ok(RecordingStatus::Paused),
        RecordingStatus::Paused => Ok(RecordingStatus::Recording),
        RecordingStatus::Inactive => Err((ErrorKind::Other, "recording state mismatch"@)),
    }
}

/// Whether a recording can be paused or resumed, and what it changes to.
pub open spec fn pausable(runtime: RuntimeView, helper: HelperStatus) -> Result<
    RecordingStatus,
    Fault,
> {
    match toggled(runtime.state.status) {
        Err(fault) => Err(fault),
        Ok(desired) => if !runtime.running {
            Err((ErrorKind::NotFound, "no recording is active"@))
        } else if helper == HelperStatus::Exited {
            Err((ErrorKind::BrokenPipe, "recording process already exited"@))
        } else {
            Ok(desired)
        },
    }
}

/// What a status or a failure says.
pub open spec fn status_seen(result: Result<RecordingStatus, SessionError>) -> Result<
    RecordingStatus,
    Fault,
> {
    match result {
        Ok(status) => Ok(status),
        Err(error) => Err(fault_of(error)),
    }
}

/// The state of a recording again.
pub fn copy_recording(state: &RecordingState) -> (copy: RecordingState)
    ensures
        recording_view(copy) == recording_view(*state),
{
    RecordingState {
        status: state.status,
        recording_id: copy_optional(&state.recording_id),
        output_id: copy_optional(&state.output_id),
    }
}

impl RecordingRuntime {
    pub fn new() -> (runtime: RecordingRuntime)
        ensures
            runtime@ == nothing_recorded(),
    {
        RecordingRuntime {
            state: RecordingState {
                status: RecordingStatus::Inactive,
                recording_id: None,
                output_id: None,
            },
            running: false,
        }
    }

    /// Forgets the recording.
    pub fn invalidate_recording_runtime(&mut self)
        ensures
            final(self)@ == nothing_recorded(),
    {
        self.state = RecordingState {
            status: RecordingStatus::Inactive,
            recording_id: None,
            output_id: None,
        };
        self.running = false;
    }

    /// What is recorded, after a look at the helper.
    pub fn recording_snapshot(&mut self, helper: HelperStatus) -> (state: RecordingState)
        ensures
            final(self)@ == after_look(old(self)@, helper),
            recording_view(state) == final(self)@.state,
    {
        if self.running && matches!(helper, HelperStatus::Exited) {
            self.invalidate_recording_runtime();
        }
        copy_recording(&self.state)
    }

    /// Starts a recording under a name, where none is active. The launcher starts the
    /// helper and waits for its acknowledgement; without that nothing is recorded.
    pub fn start_recording<L: FnOnce(&CommandSpec) -> Result<(), SessionError>>(
        &mut self,
        root: &[u8],
        recording_id: String,
        output_id: &StableId,
        audio: bool,
        launch: L,
    ) -> (done: Result<(), SessionError>)
        requires
            !old(self)@.running ==> (recorder_line(root@, recording_id@, output_id.0@, audio)
                matches Ok(line) ==> forall|spec: &CommandSpec|
                spec@ == line ==> #[trigger] call_requires(launch, (spec,))),
        ensures
            if old(self)@.running {
                &&& told(done) == Err::<(), Fault>(
                    (ErrorKind::AlreadyExists, "a recording is already active"@),
                )
                &&& final(self)@ == old(self)@
            } else {
                match recorder_line(root@, recording_id@, output_id.0@, audio) {
                    Err(fault) => told(done) == Err::<(), Fault>(fault) && final(self)@
                        == old(self)@,
                    Ok(line) => launched_as(launch, line, done) && final(self)@ == if done is Ok {
                        recording_of(recording_id@, output_id.0@)
                    } else {
                        old(self)@
                    },
                }
            },
    {
        if self.running {
            return Err(
                SessionError::new(ErrorKind::AlreadyExists, "a recording is already active"),
            );
        }
        let spec = match recorder_spec(root, recording_id.as_str(), output_id, audio) {
            Ok(spec) => spec,
            Err(error) => return Err(error),
        };
        let acknowledged = launch(&spec);
        assert(launched_as(launch, spec@, acknowledged));
        if let Err(error) = acknowledged {
            return Err(error);
        }
        self.state = RecordingState {
            status: RecordingStatus::Recording,
            recording_id: Some(recording_id),
            output_id: Some(output_id.as_str().to_owned()),
        };
        self.running = true;
        acknowledged
    }

    /// Pauses a recording, or goes on with it. A helper that cannot be told changes
    /// nothing; one that was told and does not acknowledge it records nothing any
    /// longer.
    pub fn pause_recording<
        S: FnOnce(RecordingStatus) -> Result<(), SessionError>,
        A: FnOnce(RecordingStatus) -> Result<(), SessionError>,
    >(&mut self, helper: HelperStatus, signal: S, acknowledge: A) -> (done: Result<
        (),
        SessionError,
    >)
        requires
            pausable(old(self)@, helper) matches Ok(desired) ==> {
                &&& call_requires(signal, (desired,))
                &&& (exists|sent: Result<(), SessionError>| #[trigger]
                    call_ensures(signal, (desired,), sent) && sent is Ok) ==> call_requires(
                    acknowledge,
                    (desired,),
                )
            },
        ensures
            match pausable(old(self)@, helper) {
                Err(fault) => told(done) == Err::<(), Fault>(fault) && final(self)@ == if toggled(
                    old(self)@.state.status,
                ) is Ok {
                    after_look(old(self)@, helper)
                } else {
                    old(self)@
                },
                Ok(desired) => exists|sent: Result<(), SessionError>| #[trigger]
                    call_ensures(signal, (desired,), sent) && match sent {
                        Err(error) => done == Err::<(), SessionError>(error) && final(self)@
                            == old(self)@,
                        Ok(()) => call_ensures(acknowledge, (desired,), done) && final(self)@
                            == if done is Ok {
                            RuntimeView {
                                state: RecordingView { status: desired, ..old(self)@.state },
                                ..old(self)@
                            }
                        } else {
                            nothing_recorded()
                        },
                    },
            },
    {
        let desired = match self.state.status {
            RecordingStatus::Recording => RecordingStatus::Paused,
            RecordingStatus::Paused => RecordingStatus::Recording,
            RecordingStatus::Inactive => {
                return Err(SessionError::new(ErrorKind::Other, "recording state mismatch"));
            },
        };
        if !self.running {
            return Err(SessionError::new(ErrorKind::NotFound, "no recording is active"));
        }
        if matches!(helper, HelperStatus::Exited) {
            self.invalidate_recording_runtime();
            return Err(
                SessionError::new(ErrorKind::BrokenPipe, "recording process already exited"),
            );
        }
        let sent = signal(desired);
        if let Err(error) = sent {
            return Err(error);
        }
        let acknowledged = acknowledge(desired);
        if acknowledged.is_err() {
            self.invalidate_recording_runtime();
        } else {
            self.state.status = desired;
        }
        acknowledged
    }

    /// Ends a recording, where one is active. However its helper ended, nothing is
    /// recorded any longer.
    pub fn stop_recording<E: FnOnce() -> Result<(), SessionError>>(&mut self, end: E) -> (done:
        Result<(), SessionError>)
        requires
            old(self)@.running ==> call_requires(end, ()),
        ensures
            if old(self)@.running {
                &&& call_ensures(end, (), done)
                &&& final(self)@ == nothing_recorded()
            } else {
                &&& told(done) == Err::<(), Fault>(
                    (ErrorKind::NotFound, "no recording is active"@),
                )
                &&& final(self)@ == old(self)@
            },
    {
        if !self.running {
            return Err(SessionError::new(ErrorKind::NotFound, "no recording is active"));
        }
        let ended = end();
        self.invalidate_recording_runtime();
        ended
    }
}

/// A recording that goes on.
pub open spec fn recording_of(recording_id: Seq<char>, output_id: Seq<char>) -> RuntimeView {
    RuntimeView {
        state: RecordingView {
            status: RecordingStatus::Recording,
            recording_id: Some(recording_id),
            output_id: Some(output_id),
        },
        running: true,
    }
}

/// Whether launching a program can end in a way.
pub open spec fn launched_as<L: FnOnce(&CommandSpec) -> Result<(), SessionError>>(
    launch: L,
    line: CommandView,
    outcome: Result<(), SessionError>,
) -> bool {
    exists|spec: &CommandSpec| #[trigger]
        call_ensures(launch, (spec,), outcome) && spec@ == line
}

/// The line by which a helper tells its status.
pub open spec fn status_line(status: RecordingStatus) -> Seq<char> {
    match status {
        RecordingStatus::Recording => "STATE recording"@,
        RecordingStatus::Paused => "STATE paused"@,
        RecordingStatus::Inactive => "STATE inactive"@,
    }
}

/// What reading the status of a helper gave.
pub enum HelperRead {
    /// A line, with its end.
    Line(String),
    /// The end of the status, and where the helper stands then.
    End(HelperStatus),
    /// Nothing yet.
    Nothing,
    Failed(SessionError),
}

/// What follows from a reading: the acknowledgement or its failure, or nothing
/// so far.
pub open spec fn acknowledgement(
    expected: RecordingStatus,
    read: HelperRead,
) -> Option<Result<(), Fault>> {
    match read {
        HelperRead::Line(line) => Some(
            if byte_len(line@) > 64 || trim_end(line@) != status_line(expected) {
                malformed("recording helper returned an invalid acknowledgement"@)
            } else {
                Ok(())
            },
        ),
        HelperRead::End(HelperStatus::Exited) => Some(
            Err((ErrorKind::BrokenPipe, "recording helper exited before acknowledgement"@)),
        ),
        HelperRead::End(HelperStatus::Alive) => None,
        HelperRead::Nothing => None,
        HelperRead::Failed(error) => Some(Err(fault_of(error))),
    }
}

/// What an acknowledgement says, where there is one.
pub open spec fn step_told(step: Option<Result<(), SessionError>>) -> Option<Result<(), Fault>> {
    match step {
        Some(result) => Some(told(result)),
        None => None,
    }
}

/// Gives up on an acknowledgement whose deadline has passed.
pub fn check_acknowledgement_deadline(now: u64, deadline: u64) -> (checked: Result<
    (),
    SessionError,
>)
    ensures
        told(checked) == if now >= deadline {
            Err((ErrorKind::TimedOut, "recording helper acknowledgement timed out"@))
        } else {
            Ok(())
        },
{
    if now >= deadline {
        return Err(
            SessionError::new(ErrorKind::TimedOut, "recording helper acknowledgement timed out"),
        );
    }
    Ok(())
}

/// What follows from a reading of the status of a helper.
pub fn wait_for_recording_ack(expected: RecordingStatus, read: HelperRead) -> (step: Option<
    Result<(), SessionError>,
>)
    ensures
        step_told(step) == acknowledgement(expected, read),
{
    match read {
        HelperRead::Line(line) => {
            let expected = match expected {
                RecordingStatus::Recording => "STATE recording",
                RecordingStatus::Paused => "STATE paused",
                RecordingStatus::Inactive => "STATE inactive",
            };
            let chars = chars_of(line.as_str());
            if text_bytes(line.as_str()) > 64 || !is_text(
                trim_end_chars(chars.as_slice()),
                expected,
            ) {
                return Some(invalid("recording helper returned an invalid acknowledgement"));
            }
            Some(Ok(()))
        },
        HelperRead::End(status) => match status {
            HelperStatus::Exited => Some(
                Err(
                    SessionError::new(
                        ErrorKind::BrokenPipe,
                        "recording helper exited before acknowledgement",
                    ),
                ),
            ),
            HelperStatus::Alive => None,
        },
        HelperRead::Nothing => None,
        HelperRead::Failed(error) => Some(Err(error)),
    }
}

/// Whether a recording runs exactly when it has a status other than inactive.
pub open spec fn is_sound_recording(runtime: RuntimeView) -> bool {
    runtime.running <==> runtime.state.status != RecordingStatus::Inactive
}

/// No operation leaves a recording without a helper or a helper without a
/// recording, and pausing twice leads back.
pub proof fn recordings_stay_sound(
    runtime: RuntimeView,
    helper: HelperStatus,
    desired: RecordingStatus,
    recording_id: Seq<char>,
    output_id: Seq<char>,
)
    requires
        is_sound_recording(runtime),
    ensures
        is_sound_recording(nothing_recorded()),
        is_sound_recording(after_look(runtime, helper)),
        pausable(runtime, helper) == Ok::<RecordingStatus, Fault>(desired) ==> {
            let paused = RuntimeView {
                state: RecordingView { status: desired, ..runtime.state },
                ..runtime
            };
            &&& is_sound_recording(paused)
            &&& pausable(paused, HelperStatus::Alive) == Ok::<RecordingStatus, Fault>(
                runtime.state.status,
            )
        },
        is_sound_recording(recording_of(recording_id, output_id)),
{
}

// ---------------------------------------------------------------------------
// Locks that a mutation may hold
// ---------------------------------------------------------------------------

/// What became of the attempt to look at a state without waiting.
#[derive(Debug, Clone, Copy, PartialEq, Eq, Structural)]
pub enum LockAttempt {
    Free,
    /// A mutation is at work on it.
    Busy,
    Poisoned,
}

/// Looks at the recording without waiting for a mutation of it.
pub fn recording_lock_for_poll(attempt: LockAttempt) -> (free: Result<(), SessionError>)
    ensures
        told(free) == match attempt {
            LockAttempt::Free => Ok(()),
            LockAttempt::Busy => Err((ErrorKind::WouldBlock, "recording state is busy"@)),
            LockAttempt::Poisoned => Err((ErrorKind::Other, "recording state lock poisoned"@)),
        },
{
    match attempt {
        LockAttempt::Free => Ok(()),
        LockAttempt::Busy => Err(
            SessionError::new(ErrorKind::WouldBlock, "recording state is busy"),
        ),
        LockAttempt::Poisoned => Err(
            SessionError::new(ErrorKind::Other, "recording state lock poisoned"),
        ),
    }
}

/// Looks at the idle inhibitor without waiting for a mutation of it.
pub fn idle_lock_for_poll(attempt: LockAttempt) -> (free: Result<(), SessionError>)
    ensures
        told(free) == match attempt {
            LockAttempt::Free => Ok(()),
            LockAttempt::Busy => Err((ErrorKind::WouldBlock, "idle inhibitor state is busy"@)),
            LockAttempt::Poisoned => Err((ErrorKind::Other, "idle inhibitor lock poisoned"@)),
        },
{
    match attempt {
        LockAttempt::Free => Ok(()),
        LockAttempt::Busy => Err(
            SessionError::new(ErrorKind::WouldBlock, "idle inhibitor state is busy"),
        ),
        LockAttempt::Poisoned => Err(
            SessionError::new(ErrorKind::Other, "idle inhibitor lock poisoned"),
        ),
    }
}

// ---------------------------------------------------------------------------
// The idle inhibitor and the game mode
// ---------------------------------------------------------------------------

/// What is to be done about the idle inhibitor.
#[derive(Debug, Clone, Copy, PartialEq, Eq, Structural)]
pub enum InhibitorStep {
    Keep,
    Acquire,
    Release,
}

/// What is to be done so that idling is inhibited or not.
pub fn set_idle_inhibited(enabled: bool, held: bool) -> (step: InhibitorStep)
    ensures
        step == if enabled == held {
            InhibitorStep::Keep
        } else if enabled {
            InhibitorStep::Acquire
        } else {
            InhibitorStep::Release
        },
{
    if enabled == held {
        InhibitorStep::Keep
    } else if enabled {
        InhibitorStep::Acquire
    } else {
        InhibitorStep::Release
    }
}

/// The method that turns the game mode on or off.
pub open spec fn game_mode_method(enabled: bool) -> Seq<char> {
    if enabled {
        "RegisterGame"@
    } else {
        "UnregisterGame"@
    }
}

/// What the reply of the game mode comes to.
pub open spec fn game_mode_verdict(reply: Result<i32, SessionError>) -> Result<(), Fault> {
    match reply {
        Err(error) => Err(fault_of(error)),
        Ok(status) => if status < 0 {
            Err((ErrorKind::Other, "GameMode rejected the request"@))
        } else {
            Ok(())
        },
    }
}

/// What the reply of the game mode comes to.
pub fn game_mode_reply(reply: Result<i32, SessionError>) -> (done: Result<(), SessionError>)
    ensures
        told(done) == game_mode_verdict(reply),
{
    match reply {
        Err(error) => Err(error),
        Ok(status) => if status < 0 {
            Err(SessionError::new(ErrorKind::Other, "GameMode rejected the request"))
        } else {
            Ok(())
        },
    }
}

/// Turns the game mode on or off through a transport.
pub fn execute_game_mode_with<T: FnOnce(&str) -> Result<i32, SessionError>>(
    enabled: bool,
    transport: T,
) -> (done: Result<(), SessionError>)
    requires
        forall|method: &str|
            method@ == game_mode_method(enabled) ==> #[trigger] call_requires(
                transport,
                (method,),
            ),
    ensures
        exists|method: &str, reply: Result<i32, SessionError>| #[trigger]
            call_ensures(transport, (method,), reply) && method@ == game_mode_method(enabled)
                && told(done) == game_mode_verdict(reply),
{
    let method = if enabled {
        "RegisterGame"
    } else {
        "UnregisterGame"
    };
    let reply = transport(method);
    game_mode_reply(reply)
}

/// Turns the game mode on or off through a transport, and takes note of it where that
/// succeeded.
pub fn set_game_mode<T: FnOnce(&str) -> Result<i32, SessionError>>(
    mode: &mut bool,
    enabled: bool,
    transport: T,
) -> (done: Result<(), SessionError>)
    requires
        forall|method: &str|
            method@ == game_mode_method(enabled) ==> #[trigger] call_requires(
                transport,
                (method,),
            ),
    ensures
        exists|method: &str, reply: Result<i32, SessionError>| #[trigger]
            call_ensures(transport, (method,), reply) && method@ == game_mode_method(enabled)
                && told(done) == game_mode_verdict(reply),
        *final(mode) == if done is Ok {
            enabled
        } else {
            *old(mode)
        },
{
    let done = execute_game_mode_with(enabled, transport);
    if done.is_ok() {
        *mode = enabled;
    }
    done
}

// ---------------------------------------------------------------------------
// The clipboard
// ---------------------------------------------------------------------------

/// An entry of the clipboard as the list of its history shows it.
pub open spec fn shown_entry(row: ListRowView) -> EntryView {
    EntryView {
        id: entry_identifier(row.number),
        mime_type: if starts_with(row.preview, "[[ binary data"@) {
            "application/octet-stream"@
        } else {
            "text/plain;charset=utf-8"@
        },
        preview: row.preview,
        byte_length: byte_len(row.preview) as u64,
    }
}

/// The entries of the clipboard.
pub open spec fn shown_entries(list: Seq<u8>) -> Result<Seq<EntryView>, Fault> {
    match listed_in(list) {
        Ok(rows) => Ok(rows.map_values(|row: ListRowView| shown_entry(row))),
        Err(fault) => Err(fault),
    }
}

/// What a list of entries or a failure says.
pub open spec fn entries_seen(entries: Result<Vec<ClipboardEntry>, SessionError>) -> Result<
    Seq<EntryView>,
    Fault,
> {
    match entries {
        Ok(entries) => Ok(views(entries@)),
        Err(error) => Err(fault_of(error)),
    }
}

fn clipboard_entry(row: &ListRow) -> (entry: ClipboardEntry)
    ensures
        entry@ == shown_entry(row@),
{
    let number = chars_of(row.number.as_str());
    let chars = chars_of(row.preview.as_str());
    let binary = has_prefix(chars.as_slice(), chars_of("[[ binary data").as_slice());
    let length: usize = text_bytes(row.preview.as_str());
    ClipboardEntry {
        id: prefixed("clipboard:", number.as_slice()),
        byte_length: length as u64,
        preview: row.preview.clone(),
        mime_type: if binary {
            "application/octet-stream".to_owned()
        } else {
            "text/plain;charset=utf-8".to_owned()
        },
    }
}

/// The entries of the clipboard.
pub fn clipboard_entries(list: &[u8]) -> (entries: Result<Vec<ClipboardEntry>, SessionError>)
    ensures
        entries_seen(entries) == shown_entries(list@),
{
    let rows = match parse_list(list) {
        Ok(rows) => rows,
        Err(error) => {
            return Err(error);
        },
    };
    let mut entries: Vec<ClipboardEntry> = Vec::new();
    let ghost all = views(rows@).map_values(|row: ListRowView| shown_entry(row));
    assert(views(entries@) =~= all.take(0));
    for i in 0..rows.len()
        invariant
            all == views(rows@).map_values(|row: ListRowView| shown_entry(row)),
            views(entries@) == all.take(i as int),
    {
        let entry = clipboard_entry(&rows[i]);
        let ghost before = entries@;
        entries.push(entry);
        proof {
            views_of_push(before, entry);
            assert(views(rows@)[i as int] == rows@[i as int]@);
            assert(all.take(i + 1) =~= all.take(i as int).push(entry@));
        }
    }
    assert(all.take(rows@.len() as int) =~= all);
    Ok(entries)
}

/// Whether an entry has an identifier.
pub open spec fn entry_listed(entries: Seq<EntryView>, id: Seq<char>) -> bool {
    exists|i: int| 0 <= i < entries.len() && (#[trigger] entries[i]).id == id
}

pub fn has_entry(entries: &[ClipboardEntry], entry_id: &StableId) -> (found: bool)
    ensures
        found == entry_listed(views(entries@), entry_id.0@),
{
    for i in 0..entries.len()
        invariant
            forall|j: int| 0 <= j < i ==> (#[trigger] views(entries@)[j]).id != entry_id.0@,
    {
        assert(views(entries@)[i as int] == entries@[i as int]@);
        if same_text(entries[i].id.as_str(), entry_id.as_str()) {
            return true;
        }
    }
    false
}

/// Whether the contents of an entry that is still listed are read.
pub open spec fn entry_by(
    runs: Runs,
    id: Seq<char>,
    contents: Result<Seq<u8>, Fault>,
) -> bool {
    leads(
        runs,
        list_line(),
        contents,
        |list: Seq<u8>|
            match shown_entries(list) {
                Err(fault) => contents == Err::<Seq<u8>, Fault>(fault),
                Ok(entries) => if !entry_listed(entries, id) {
                    contents == refused::<Seq<u8>>("unknown clipboard entry ID"@)
                } else {
                    match decode_line(id) {
                        Err(fault) => contents == Err::<Seq<u8>, Fault>(fault),
                        Ok(line) => came_of(runs, line, contents),
                    }
                },
            },
    )
}

/// Whether an entry can have been found in the list.
pub open spec fn found_listed(runs: Runs, id: Seq<char>) -> bool {
    exists|list: Seq<u8>| #[trigger]
        came_of(runs, list_line(), Ok::<Seq<u8>, Fault>(list)) && shown_entries(list) is Ok
            && entry_listed(shown_entries(list)->Ok_0, id)
}

/// Whether a runner lists the entries, and gives the contents of one that it listed.
pub open spec fn grants_entry<R: FnOnce(&CommandSpec) -> Run>(runner: R, id: Seq<char>) -> bool {
    &&& grants(runner, list_line())
    &&& found_listed(runs_of(runner), id) ==> (decode_line(id) matches Ok(line) ==> grants(
        runner,
        line,
    ))
}

/// The contents of an entry that is still listed.
pub fn read_entry<R: Fn(&CommandSpec) -> Run>(runner: &R, entry_id: &StableId) -> (contents: Result<
    Vec<u8>,
    SessionError,
>)
    requires
        grants_entry(*runner, entry_id.0@),
    ensures
        entry_by(runs_of(*runner), entry_id.0@, seen(contents)),
{
    let list = match run(runner, list_spec()) {
        Ok(list) => list,
        Err(error) => {
            return Err(error);
        },
    };
    let entries = match clipboard_entries(list.as_slice()) {
        Ok(entries) => entries,
        Err(error) => {
            return Err(error);
        },
    };
    if !has_entry(entries.as_slice(), entry_id) {
        return invalid_input("unknown clipboard entry ID");
    }
    match decode_spec(entry_id) {
        Ok(spec) => run(runner, spec),
        Err(error) => Err(error),
    }
}

/// Whether bytes were handed to a writer, with this outcome.
pub open spec fn wrote<W: FnOnce(&Vec<u8>) -> Result<(), SessionError>>(
    write: W,
    contents: Seq<u8>,
    outcome: Result<(), SessionError>,
) -> bool {
    exists|bytes: &Vec<u8>| bytes@ == contents && #[trigger] call_ensures(write, (bytes,), outcome)
}

/// Hands the contents of an entry that is still listed to a writer, and wipes
/// them whatever came of it.
pub fn paste_clipboard<
    R: Fn(&CommandSpec) -> Run,
    W: FnOnce(&Vec<u8>) -> Result<(), SessionError>,
>(runner: &R, entry_id: &StableId, write: W) -> (done: Result<(), SessionError>)
    requires
        grants_entry(*runner, entry_id.0@),
        forall|bytes: &Vec<u8>|
            entry_by(runs_of(*runner), entry_id.0@, Ok::<Seq<u8>, Fault>(bytes@))
                ==> #[trigger] call_requires(write, (bytes,)),
    ensures
        exists|contents: Result<Seq<u8>, Fault>| #[trigger]
            entry_by(runs_of(*runner), entry_id.0@, contents) && match contents {
                Ok(contents) => wrote(write, contents, done),
                Err(fault) => told(done) == Err::<(), Fault>(fault),
            },
{
    let mut contents = match read_entry(runner, entry_id) {
        Ok(contents) => contents,
        Err(error) => {
            return Err(error);
        },
    };
    let ghost before = contents@;
    let done = write(&contents);
    assert(wrote(write, before, done));
    wipe(&mut contents);
    done
}

/// Clears the history of the clipboard.
pub fn clear_clipboard<R: FnOnce(&CommandSpec) -> Run>(runner: R) -> (done: Result<(), SessionError>)
    requires
        grants(runner, clear_line()),
    ensures
        leads(
            runs_of(runner),
            clear_line(),
            told(done),
            |_output: Seq<u8>| told(done) == Ok::<(), Fault>(()),
        ),
{
    match run_once(runner, clear_spec()) {
        Ok(_) => Ok(()),
        Err(error) => Err(error),
    }
}

/// Gives up on a write to the clipboard whose deadline has passed.
pub fn check_write_deadline(now: u64, deadline: u64) -> (checked: Result<(), SessionError>)
    ensures
        told(checked) == if now >= deadline {
            Err((ErrorKind::TimedOut, "clipboard write exceeded its total deadline"@))
        } else {
            Ok(())
        },
{
    if now >= deadline {
        return Err(
            SessionError::new(ErrorKind::TimedOut, "clipboard write exceeded its total deadline"),
        );
    }
    Ok(())
}

/// What writing to the program of the clipboard gave.
pub enum ClipboardWrite {
    /// So many bytes were taken.
    Taken(usize),
    /// Nothing can be taken now, and where the program stands then.
    Full(HelperStatus),
    Failed(SessionError),
}

/// How many bytes have been taken after a write, or why no more will be.
pub open spec fn taken_after(offset: usize, write: ClipboardWrite) -> Result<int, Fault> {
    match write {
        ClipboardWrite::Taken(count) => if count == 0 {
            Err((ErrorKind::WriteZero, "clipboard child closed its input"@))
        } else {
            Ok(offset + count)
        },
        ClipboardWrite::Full(HelperStatus::Exited) => Err(
            (ErrorKind::BrokenPipe, "clipboard child exited before accepting input"@),
        ),
        ClipboardWrite::Full(HelperStatus::Alive) => Ok(offset as int),
        ClipboardWrite::Failed(error) => Err(fault_of(error)),
    }
}

/// How many of the bytes have been taken after a write.
pub fn clipboard_written(offset: usize, length: usize, write: ClipboardWrite) -> (taken: Result<
    usize,
    SessionError,
>)
    requires
        offset <= length,
        write matches ClipboardWrite::Taken(count) ==> count <= length - offset,
    ensures
        match taken {
            Ok(taken) => taken <= length && taken_after(offset, write) == Ok::<int, Fault>(
                taken as int,
            ),
            Err(error) => taken_after(offset, write) == Err::<int, Fault>(fault_of(error)),
        },
{
    match write {
        ClipboardWrite::Taken(count) => if count == 0 {
            Err(SessionError::new(ErrorKind::WriteZero, "clipboard child closed its input"))
        } else {
            Ok(offset + count)
        },
        ClipboardWrite::Full(status) => match status {
            HelperStatus::Exited => Err(
                SessionError::new(
                    ErrorKind::BrokenPipe,
                    "clipboard child exited before accepting input",
                ),
            ),
            HelperStatus::Alive => Ok(offset),
        },
        ClipboardWrite::Failed(error) => Err(error),
    }
}

// ---------------------------------------------------------------------------
// Programs and services
// ---------------------------------------------------------------------------

/// How the end of a program is waited for; the text tells which deadline it
/// missed.
pub open spec fn program_ended(
    success: Option<bool>,
    now: u64,
    deadline: u64,
    late: Seq<char>,
) -> Option<Result<(), Fault>> {
    match success {
        Some(true) => Some(Ok(())),
        Some(false) => Some(Err((ErrorKind::Other, "utility process failed"@))),
        None => if now >= deadline {
            Some(Err((ErrorKind::TimedOut, late)))
        } else {
            None
        },
    }
}

fn wait_step(success: Option<bool>, now: u64, deadline: u64, late: &str) -> (step: Option<
    Result<(), SessionError>,
>)
    ensures
        step_told(step) == program_ended(success, now, deadline, late@),
{
    match success {
        Some(success) => Some(
            if success {
                Ok(())
            } else {
                Err(SessionError::new(ErrorKind::Other, "utility process failed"))
            },
        ),
        None => if now >= deadline {
            Some(Err(SessionError::new(ErrorKind::TimedOut, late)))
        } else {
            None
        },
    }
}

/// Waits for the end of the program that takes the clipboard.
pub fn wait_until(success: Option<bool>, now: u64, deadline: u64) -> (step: Option<
    Result<(), SessionError>,
>)
    ensures
        step_told(step) == program_ended(
            success,
            now,
            deadline,
            "utility process exceeded its total deadline"@,
        ),
{
    wait_step(success, now, deadline, "utility process exceeded its total deadline")
}

/// Waits for the end of a program that was told to end.
pub fn wait_child(success: Option<bool>, now: u64, deadline: u64) -> (step: Option<
    Result<(), SessionError>,
>)
    ensures
        step_told(step) == program_ended(
            success,
            now,
            deadline,
            "utility process exceeded its deadline"@,
        ),
{
    wait_step(success, now, deadline, "utility process exceeded its deadline")
}

/// What is known of a file that may be a program.
#[derive(Debug, Clone, Copy, PartialEq, Eq, Structural)]
pub struct ProgramFile {
    pub regular: bool,
    pub mode: u32,
}

pub open spec fn is_runnable(file: ProgramFile) -> bool {
    file.regular && file.mode & 0o111 != 0
}

/// Whether one of the files found on the search path can be run.
pub open spec fn some_runnable(files: Seq<ProgramFile>) -> bool {
    exists|i: int| 0 <= i < files.len() && is_runnable(#[trigger] files[i])
}

/// Accepts a program that was found on the search path; without a search path
/// nothing is found.
pub fn ensure_executable(found: Option<&Vec<ProgramFile>>) -> (checked: Result<(), SessionError>)
    ensures
        told(checked) == match found {
            None => Err((ErrorKind::NotFound, "PATH is unavailable"@)),
            Some(files) => if some_runnable(files@) {
                Ok(())
            } else {
                Err((ErrorKind::NotFound, "utility executable is unavailable"@))
            },
        },
{
    let files = match found {
        Some(files) => files,
        None => {
            return Err(SessionError::new(ErrorKind::NotFound, "PATH is unavailable"));
        },
    };
    for i in 0..files.len()
        invariant
            found == Some(files),
            forall|j: int| 0 <= j < i ==> !is_runnable(#[trigger] files@[j]),
    {
        if files[i].regular && files[i].mode & 0o111 != 0 {
            assert(is_runnable(files@[i as int]));
            return Ok(());
        }
    }
    Err(SessionError::new(ErrorKind::NotFound, "utility executable is unavailable"))
}

/// Whether a run may go on.
pub open spec fn run_active(state: RunState, operation: Seq<char>) -> Result<(), Fault> {
    if state.cancelled {
        Err((ErrorKind::Interrupted, operation + " was cancelled"@))
    } else if state.remaining == 0 {
        Err((ErrorKind::TimedOut, operation + " exceeded its deadline"@))
    } else {
        Ok(())
    }
}

pub fn ensure_run_active(state: RunState, operation: &str) -> (active: Result<(), SessionError>)
    ensures
        told(active) == run_active(state, operation@),
{
    let mut message = operation.to_owned();
    if state.cancelled {
        message.append(" was cancelled");
        Err(SessionError { kind: ErrorKind::Interrupted, message })
    } else if state.remaining == 0 {
        message.append(" exceeded its deadline");
        Err(SessionError { kind: ErrorKind::TimedOut, message })
    } else {
        Ok(())
    }
}

/// How long a service may take to answer whether it is there.
pub fn bus_name_budget(state: RunState) -> (budget: Result<u64, SessionError>)
    ensures
        match budget {
            Ok(budget) => run_active(state, "D-Bus availability probe"@) is Ok && budget
                == if state.remaining < BUS_TIMEOUT {
                state.remaining
            } else {
                BUS_TIMEOUT
            },
            Err(error) => run_active(state, "D-Bus availability probe"@) == Err::<(), Fault>(
                fault_of(error),
            ),
        },
{
    if let Err(error) = ensure_run_active(state, "D-Bus availability probe") {
        return Err(error);
    }
    Ok(
        if state.remaining < BUS_TIMEOUT {
            state.remaining
        } else {
            BUS_TIMEOUT
        },
    )
}

/// Accepts a service that has an owner on the bus.
pub fn require_bus_name(owned: bool) -> (checked: Result<(), SessionError>)
    ensures
        told(checked) == if owned {
            Ok(())
        } else {
            Err((ErrorKind::NotFound, "required D-Bus service is unavailable"@))
        },
{
    if owned {
        Ok(())
    } else {
        Err(SessionError::new(ErrorKind::NotFound, "required D-Bus service is unavailable"))
    }
}

/// The class of a failure that the bus names.
pub open spec fn bus_failure(name: Option<Seq<char>>) -> ErrorKind {
    if name == Some("org.freedesktop.DBus.Error.AccessDenied"@) {
        ErrorKind::PermissionDenied
    } else if name == Some("org.freedesktop.DBus.Error.NoReply"@) {
        ErrorKind::TimedOut
    } else {
        ErrorKind::Other
    }
}

/// The error for a failure that the bus names, with the text that it gives.
pub fn bus_error(name: Option<&str>, text: &str) -> (error: SessionError)
    ensures
        error_is(
            error,
            bus_failure(
                match name {
                    Some(name) => Some(name@),
                    None => None,
                },
            ),
            text@,
        ),
{
    let kind = match name {
        Some(name) => if same_text(name, "org.freedesktop.DBus.Error.AccessDenied") {
            ErrorKind::PermissionDenied
        } else if same_text(name, "org.freedesktop.DBus.Error.NoReply") {
            ErrorKind::TimedOut
        } else {
            ErrorKind::Other
        },
        None => ErrorKind::Other,
    };
    SessionError::new(kind, text)
}

// ---------------------------------------------------------------------------
// States
// ---------------------------------------------------------------------------

pub open spec fn is_utility_domain(domain: DesktopDomainId) -> bool {
    domain == DesktopDomainId::Tray || domain == DesktopDomainId::Clipboard || domain
        == DesktopDomainId::Recording || domain == DesktopDomainId::IdleInhibit || domain
        == DesktopDomainId::GameMode || domain == DesktopDomainId::Screenshot || domain
        == DesktopDomainId::ColorPicker
}

pub fn utility_domain(domain: DesktopDomainId) -> (is: bool)
    ensures
        is == is_utility_domain(domain),
{
    matches!(
        domain,
        DesktopDomainId::Tray | DesktopDomainId::Clipboard | DesktopDomainId::Recording
        | DesktopDomainId::IdleInhibit | DesktopDomainId::GameMode | DesktopDomainId::Screenshot
        | DesktopDomainId::ColorPicker
    )
}

pub open spec fn availability_of(kind: ErrorKind) -> CapabilityAvailability {
    match kind {
        ErrorKind::NotFound | ErrorKind::NotConnected => CapabilityAvailability::Unavailable,
        ErrorKind::PermissionDenied => CapabilityAvailability::PermissionDenied,
        ErrorKind::TimedOut => CapabilityAvailability::Timeout,
        ErrorKind::InvalidData | ErrorKind::InvalidInput => CapabilityAvailability::Parse,
        ErrorKind::Unsupported => CapabilityAvailability::Unsupported,
        _ => CapabilityAvailability::Error,
    }
}

pub fn availability_for_io(kind: ErrorKind) -> (status: CapabilityAvailability)
    ensures
        status == availability_of(kind),
        status != CapabilityAvailability::Available,
{
    match kind {
        ErrorKind::NotFound | ErrorKind::NotConnected => CapabilityAvailability::Unavailable,
        ErrorKind::PermissionDenied => CapabilityAvailability::PermissionDenied,
        ErrorKind::TimedOut => CapabilityAvailability::Timeout,
        ErrorKind::InvalidData | ErrorKind::InvalidInput => CapabilityAvailability::Parse,
        ErrorKind::Unsupported => CapabilityAvailability::Unsupported,
        _ => CapabilityAvailability::Error,
    }
}

/// The reason of a provider, or a fixed one in place of a blank text.
pub open spec fn reason_or_fixed(reason: Seq<char>) -> Seq<char> {
    if is_blank(reason) {
        "utility provider failed"@
    } else {
        reason
    }
}

/// The state of a domain whose provider failed.
pub fn terminal(domain: DesktopDomainId, status: CapabilityAvailability, reason: String) -> (state:
    DesktopDomainState)
    requires
        status != CapabilityAvailability::Available,
    ensures
        failed_as(state, domain, status, reason_or_fixed(reason@)),
{
    proof {
        reveal_strlit("utility provider failed");
        assert("utility provider failed"@[0] == 'u');
    }
    terminal_or(domain, status, reason, "utility provider failed")
}

/// The state of a domain whose provider failed with an error.
pub fn failed_state(domain: DesktopDomainId, error: SessionError) -> (state: DesktopDomainState)
    ensures
        failed_as(
            state,
            domain,
            availability_of(error.kind),
            reason_or_fixed(error.message@),
        ),
{
    terminal(domain, availability_for_io(error.kind), error.message)
}

/// Whether a state is what a reading of a domain comes to.
pub open spec fn reads_as(
    state: DesktopDomainState,
    domain: DesktopDomainId,
    reading: Result<DesktopDomainValue, SessionError>,
) -> bool {
    match reading {
        Ok(value) => if domain_of(value) == domain {
            state@.domain == domain && state@.status == CapabilityAvailability::Available
                && state@.value == Some(value) && state@.reason is None
        } else {
            failed_as(
                state,
                domain,
                CapabilityAvailability::Parse,
                "desktop domain value belongs to a different producer"@,
            )
        },
        Err(error) => failed_as(
            state,
            domain,
            availability_of(error.kind),
            reason_or_fixed(error.message@),
        ),
    }
}

fn read_state(domain: DesktopDomainId, reading: Result<DesktopDomainValue, SessionError>) -> (state:
    DesktopDomainState)
    ensures
        reads_as(state, domain, reading),
{
    match reading {
        Ok(value) => match DesktopDomainState::available(domain, value) {
            Ok(state) => state,
            Err(error) => {
                proof {
                    reveal_strlit("desktop domain value belongs to a different producer");
                    assert("desktop domain value belongs to a different producer"@[0] == 'd');
                }
                terminal(domain, CapabilityAvailability::Parse, error.message)
            },
        },
        Err(error) => failed_state(domain, error),
    }
}

/// The state of a utility, from a reading of it. Only utilities are read here.
pub fn state(domain: DesktopDomainId, reading: Result<DesktopDomainValue, SessionError>) -> (state:
    DesktopDomainState)
    ensures
        if is_utility_domain(domain) {
            reads_as(state, domain, reading)
        } else {
            failed_as(
                state,
                domain,
                CapabilityAvailability::Parse,
                "utility service was assigned a non-utility domain"@,
            )
        },
{
    if !utility_domain(domain) {
        proof {
            reveal_strlit("utility service was assigned a non-utility domain");
            assert("utility service was assigned a non-utility domain"@[0] == 'u');
        }
        return terminal(
            domain,
            CapabilityAvailability::Parse,
            "utility service was assigned a non-utility domain".to_owned(),
        );
    }
    read_state(domain, reading)
}

/// The state of a utility, from a reading of it that must not wait. A reading
/// that would have had to wait tells nothing.
pub fn state_for_poll(
    domain: DesktopDomainId,
    reading: Result<DesktopDomainValue, SessionError>,
) -> (state: Result<DesktopDomainState, SessionError>)
    ensures
        if !is_utility_domain(domain) {
            fails_with(
                state,
                ErrorKind::InvalidInput,
                "utility service was assigned a non-utility domain"@,
            )
        } else if reading is Err && reading->Err_0.kind == ErrorKind::WouldBlock {
            fails_with(state, ErrorKind::WouldBlock, reading->Err_0.message@)
        } else {
            state is Ok && reads_as(state->Ok_0, domain, reading)
        },
{
    if !utility_domain(domain) {
        return invalid_input("utility service was assigned a non-utility domain");
    }
    match reading {
        Err(error) => if error.kind == ErrorKind::WouldBlock {
            Err(error)
        } else {
            Ok(failed_state(domain, error))
        },
        Ok(value) => Ok(read_state(domain, Ok(value))),
    }
}

/// The domain that a command changes.
pub open spec fn changed_domain(command: UtilityCommand) -> DesktopDomainId {
    match command {
        UtilityCommand::InvokeTrayMenu { .. } => DesktopDomainId::Tray,
        UtilityCommand::PasteClipboard { .. } => DesktopDomainId::Clipboard,
        UtilityCommand::ClearClipboard => DesktopDomainId::Clipboard,
        UtilityCommand::SetIdleInhibited { .. } => DesktopDomainId::IdleInhibit,
        UtilityCommand::StartRecording { .. } => DesktopDomainId::Recording,
        UtilityCommand::PauseRecording => DesktopDomainId::Recording,
        UtilityCommand::StopRecording => DesktopDomainId::Recording,
        UtilityCommand::DeleteRecording { .. } => DesktopDomainId::Recording,
        UtilityCommand::Screenshot { .. } => DesktopDomainId::Screenshot,
        UtilityCommand::PickColor => DesktopDomainId::ColorPicker,
        UtilityCommand::SetGameMode { .. } => DesktopDomainId::GameMode,
    }
}

pub fn domain_changed_by(command: &UtilityCommand) -> (domain: DesktopDomainId)
    ensures
        domain == changed_domain(*command),
        is_utility_domain(domain),
{
    match command {
        UtilityCommand::InvokeTrayMenu { .. } => DesktopDomainId::Tray,
        UtilityCommand::PasteClipboard { .. } => DesktopDomainId::Clipboard,
        UtilityCommand::ClearClipboard => DesktopDomainId::Clipboard,
        UtilityCommand::SetIdleInhibited { .. } => DesktopDomainId::IdleInhibit,
        UtilityCommand::StartRecording { .. } => DesktopDomainId::Recording,
        UtilityCommand::PauseRecording => DesktopDomainId::Recording,
        UtilityCommand::StopRecording => DesktopDomainId::Recording,
        UtilityCommand::DeleteRecording { .. } => DesktopDomainId::Recording,
        UtilityCommand::Screenshot { .. } => DesktopDomainId::Screenshot,
        UtilityCommand::PickColor => DesktopDomainId::ColorPicker,
        UtilityCommand::SetGameMode { .. } => DesktopDomainId::GameMode,
    }
}

/// Carries a command out and reads the domain that it changes. Nothing is read
/// where carrying it out failed.
pub fn execute<
    P: FnOnce(&UtilityCommand) -> Result<(), SessionError>,
    Q: FnOnce(DesktopDomainId) -> DesktopDomainState,
>(command: &UtilityCommand, perform: P, probe: Q) -> (state: Result<
    DesktopDomainState,
    SessionError,
>)
    requires
        call_requires(perform, (command,)),
        (exists|done: Result<(), SessionError>| #[trigger]
            call_ensures(perform, (command,), done) && done is Ok) ==> call_requires(
            probe,
            (changed_domain(*command),),
        ),
    ensures
        exists|done: Result<(), SessionError>| #[trigger]
            call_ensures(perform, (command,), done) && match done {
                Err(error) => state == Err::<DesktopDomainState, SessionError>(error),
                Ok(()) => state is Ok && call_ensures(
                    probe,
                    (changed_domain(*command),),
                    state->Ok_0,
                ),
            },
{
    let done = perform(command);
    match done {
        Err(error) => Err(error),
        Ok(()) => Ok(probe(domain_changed_by(command))),
    }
}

// ---------------------------------------------------------------------------
// The producer
// ---------------------------------------------------------------------------

/// The producer of one utility.
pub struct UtilityProducer {
    domain: DesktopDomainId,
}

impl UtilityProducer {
    pub closed spec fn of(&self) -> DesktopDomainId {
        self.domain
    }

    pub fn new(domain: DesktopDomainId) -> (producer: Result<UtilityProducer, SessionError>)
        ensures
            if is_utility_domain(domain) {
                producer is Ok && producer->Ok_0.of() == domain
            } else {
                fails_with(
                    producer,
                    ErrorKind::InvalidInput,
                    "utility producer was assigned a non-utility domain"@,
                )
            },
    {
        if !utility_domain(domain) {
            return invalid_input("utility producer was assigned a non-utility domain");
        }
        Ok(UtilityProducer { domain })
    }

    pub fn domain(&self) -> (domain: DesktopDomainId)
        ensures
            domain == self.of(),
    {
        self.domain
    }

    /// The first state, where the worker that read it came back with one.
    pub fn initial(&self, worker: Option<DesktopDomainState>) -> (state: DesktopDomainState)
        ensures
            match worker {
                Some(read) => state == read,
                None => failed_as(
                    state,
                    self.of(),
                    CapabilityAvailability::Error,
                    "utility probe worker failed"@,
                ),
            },
    {
        match worker {
            Some(state) => state,
            None => {
                proof {
                    reveal_strlit("utility probe worker failed");
                    assert("utility probe worker failed"@[0] == 'u');
                }
                terminal(
                    self.domain,
                    CapabilityAvailability::Error,
                    "utility probe worker failed".to_owned(),
                )
            },
        }
    }

    /// The state after a reading that must not wait; nothing where there is
    /// nothing to tell. A worker that did not come back gives no reading.
    pub fn polled(
        &self,
        worker: Option<Result<DesktopDomainState, SessionError>>,
        cancelled: bool,
    ) -> (state: Option<DesktopDomainState>)
        ensures
            match worker {
                Some(Ok(read)) => state == Some(read),
                Some(Err(error)) => if error.kind == ErrorKind::WouldBlock || cancelled {
                    state is None
                } else {
                    state is Some && failed_as(
                        state->0,
                        self.of(),
                        availability_of(error.kind),
                        reason_or_fixed(error.message@),
                    )
                },
                None => if cancelled {
                    state is None
                } else {
                    state is Some && failed_as(
                        state->0,
                        self.of(),
                        CapabilityAvailability::Error,
                        "utility probe worker failed"@,
                    )
                },
            },
    {
        match worker {
            Some(Ok(state)) => Some(state),
            Some(Err(error)) => if error.kind == ErrorKind::WouldBlock || cancelled {
                None
            } else {
                Some(failed_state(self.domain, error))
            },
            None => if cancelled {
                None
            } else {
                Some(self.initial(None))
            },
        }
    }
}

} // verus!

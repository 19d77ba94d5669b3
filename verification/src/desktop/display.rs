//! The brightness and the night light.

use vstd::prelude::*;

use crate::command::{
    command_line, grants, grants_all, leads, limited, run, run_once, runs_of, CommandSpec,
    CommandView, Run, Runs,
};
use crate::error::{
    fails_with, invalid, invalid_input, malformed, refused, seen, told, ErrorKind, Fault,
    SessionError,
};
use crate::rows::{read_text, text_in};
use crate::text::{lines, lines_of, pieces, same_text, split, split_chars, string_of};

use super::domain::{Level, StableId};
use super::fraction::{
    can_read, can_tell, near_by, reads_by, Nearness, Number, Reader, RequestedLevel,
};

verus! {

/// The longest that a change may take, in milliseconds.
pub const BRIGHTNESS_TIMEOUT: u64 = 5_000;

/// The longest that the night light may take to follow, in milliseconds.
pub const NIGHT_LIGHT_TIMEOUT: u64 = 750;

pub enum DisplayCommand {
    SetBrightness { output_id: StableId, level: RequestedLevel },
    SetNightLightEnabled { enabled: bool },
}

#[derive(Debug, Clone, Copy, PartialEq, Eq, Structural)]
pub struct DisplaySnapshot {
    pub brightness: Option<Level>,
    pub night_light_enabled: bool,
}

/// The command line that sets the brightness.
pub open spec fn brightness_line(level: RequestedLevel) -> Result<CommandView, Fault> {
    if level.normalized {
        Ok(limited("brightnessctl"@, seq!["set"@, level.text@], BRIGHTNESS_TIMEOUT))
    } else {
        refused("brightness is not normalized"@)
    }
}

pub fn brightness_spec(level: &RequestedLevel) -> (spec: Result<CommandSpec, SessionError>)
    ensures
        seen(spec) == brightness_line(*level),
{
    if !level.normalized {
        return invalid_input("brightness is not normalized");
    }
    let spec = CommandSpec::new("brightnessctl").within(BRIGHTNESS_TIMEOUT).arg("set").arg(
        level.text.as_str(),
    );
    assert(spec@.args =~= seq!["set"@, level.text@]);
    Ok(spec)
}

pub open spec fn info_line() -> CommandView {
    command_line("brightnessctl"@, seq!["--machine-readable"@, "info"@])
}

/// The command that reads the brightness.
pub fn info_spec() -> (spec: CommandSpec)
    ensures
        spec@ == info_line(),
{
    let spec = CommandSpec::new("brightnessctl").arg("--machine-readable").arg("info");
    assert(spec@.args =~= seq!["--machine-readable"@, "info"@]);
    spec
}

/// The percentage in the first row of the output, without its sign.
pub open spec fn percentage_in(output: Seq<u8>) -> Result<Seq<char>, Fault> {
    match text_in(output, "brightness output is not UTF-8"@) {
        Err(fault) => Err(fault),
        Ok(text) => if lines(text).len() == 0 {
            malformed("brightness output is empty"@)
        } else {
            let fields = split(lines(text)[0], ',');
            if fields.len() < 4 || fields[3].len() == 0 || fields[3].last() != '%' {
                malformed("brightness row malformed"@)
            } else {
                Ok(fields[3].drop_last())
            }
        },
    }
}

/// The brightness in the output.
pub open spec fn brightness_in(output: Seq<u8>, reader: Reader) -> Result<Level, Fault> {
    match percentage_in(output) {
        Err(fault) => Err(fault),
        Ok(percentage) => match reader(percentage) {
            Number::NotNumeric => malformed("brightness is not numeric"@),
            Number::OutOfRange => malformed("brightness is outside 0..100"@),
            Number::Level(level) => Ok(level),
        },
    }
}

/// Reads the brightness. A percentage is read as the fraction that it stands for.
pub fn parse_brightness<F: Fn(&str) -> Number>(output: &[u8], read: &F) -> (brightness: Result<
    Level,
    SessionError,
>)
    requires
        can_read(*read),
    ensures
        forall|reader: Reader| #[trigger]
            reads_by(*read, reader) ==> match brightness {
                Ok(level) => brightness_in(output@, reader) == Ok::<Level, Fault>(level),
                Err(error) => brightness_in(output@, reader) == Err::<Level, Fault>(
                    (error.kind, error.message@),
                ),
            },
{
    let text = match read_text(output, "brightness output is not UTF-8") {
        Ok(text) => text,
        Err(error) => return Err(error),
    };
    let rows = lines_of(text.as_slice());
    assert(lines(text@).len() == rows@.len());
    if rows.len() == 0 {
        return invalid("brightness output is empty");
    }
    assert(lines(text@)[0] == rows@[0]@);
    let fields = split_chars(rows[0].as_slice(), ',');
    assert(pieces(fields@).len() == fields@.len());
    if fields.len() < 4 {
        return invalid("brightness row malformed");
    }
    assert(pieces(fields@)[3] == fields@[3]@);
    let field = fields[3].as_slice();
    if field.len() == 0 || field[field.len() - 1] != '%' {
        return invalid("brightness row malformed");
    }
    let inner = vstd::slice::slice_subrange(field, 0, field.len() - 1);
    assert(inner@ =~= field@.drop_last());
    let token = string_of(inner);
    let number = read(token.as_str());
    proof {
        assert forall|reader: Reader| #[trigger] reads_by(*read, reader) implies number == reader(
            token@,
        ) by {}
    }
    match number {
        Number::NotNumeric => invalid("brightness is not numeric"),
        Number::OutOfRange => invalid("brightness is outside 0..100"),
        Number::Level(level) => Ok(level),
    }
}

/// Whether the night light is on, from the state of its unit.
pub open spec fn night_light(state: Seq<char>) -> Result<bool, Fault> {
    if state == "active"@ || state == "activating"@ || state == "reloading"@ {
        Ok(true)
    } else if state == "inactive"@ || state == "deactivating"@ || state == "failed"@ {
        Ok(false)
    } else {
        malformed("night-light unit returned an unknown state"@)
    }
}

pub fn night_light_state(state: &str) -> (on: Result<bool, SessionError>)
    ensures
        match on {
            Ok(on) => night_light(state@) == Ok::<bool, Fault>(on),
            Err(error) => night_light(state@) == Err::<bool, Fault>((error.kind, error.message@)),
        },
{
    if same_text(state, "active") || same_text(state, "activating") || same_text(
        state,
        "reloading",
    ) {
        return Ok(true);
    }
    if same_text(state, "inactive") || same_text(state, "deactivating") || same_text(
        state,
        "failed",
    ) {
        return Ok(false);
    }
    invalid("night-light unit returned an unknown state")
}

/// The method of the service manager that turns the night light on or off.
pub fn night_light_method(enabled: bool) -> (method: &'static str)
    ensures
        method@ == (if enabled {
            "StartUnit"@
        } else {
            "StopUnit"@
        }),
{
    if enabled {
        "StartUnit"
    } else {
        "StopUnit"
    }
}

/// Whether the night light has followed: yes, not yet, or not in time.
pub fn night_light_followed(on: bool, enabled: bool, now: u64, deadline: u64) -> (followed: Result<
    bool,
    SessionError,
>)
    ensures
        if on == enabled {
            followed == Ok::<bool, SessionError>(true)
        } else if now >= deadline {
            fails_with(followed, ErrorKind::TimedOut, "night-light state did not converge"@)
        } else {
            followed == Ok::<bool, SessionError>(false)
        },
{
    if on == enabled {
        return Ok(true);
    }
    if now >= deadline {
        return Err(SessionError::new(ErrorKind::TimedOut, "night-light state did not converge"));
    }
    Ok(false)
}

pub open spec fn bus_failure(name: Option<Seq<char>>) -> ErrorKind {
    match name {
        Some(name) => if name == "org.freedesktop.DBus.Error.ServiceUnknown"@ || name
            == "org.freedesktop.DBus.Error.NameHasNoOwner"@ || name
            == "org.freedesktop.systemd1.NoSuchUnit"@ {
            ErrorKind::NotFound
        } else if name == "org.freedesktop.DBus.Error.AccessDenied"@ {
            ErrorKind::PermissionDenied
        } else if name == "org.freedesktop.DBus.Error.NoReply"@ {
            ErrorKind::TimedOut
        } else {
            ErrorKind::Other
        },
        None => ErrorKind::Other,
    }
}

/// The failure of a request on the bus, from the name of the bus error.
pub fn dbus_error(name: Option<&str>) -> (error: SessionError)
    ensures
        error.message@ == "night-light D-Bus request failed"@,
        error.kind == bus_failure(
            match name {
                Some(name) => Some(name@),
                None => None,
            },
        ),
{
    let kind = match name {
        Some(name) => if same_text(name, "org.freedesktop.DBus.Error.ServiceUnknown") || same_text(
            name,
            "org.freedesktop.DBus.Error.NameHasNoOwner",
        ) || same_text(name, "org.freedesktop.systemd1.NoSuchUnit") {
            ErrorKind::NotFound
        } else if same_text(name, "org.freedesktop.DBus.Error.AccessDenied") {
            ErrorKind::PermissionDenied
        } else if same_text(name, "org.freedesktop.DBus.Error.NoReply") {
            ErrorKind::TimedOut
        } else {
            ErrorKind::Other
        },
        None => ErrorKind::Other,
    };
    SessionError::new(kind, "night-light D-Bus request failed")
}

/// Which states the service manager can tell of the night-light unit.
pub type UnitStates = spec_fn(Result<Seq<char>, Fault>) -> bool;

/// The states that a function can tell.
pub open spec fn states_of<U: Fn() -> Result<String, SessionError>>(unit: U) -> UnitStates {
    |state: Result<Seq<char>, Fault>|
        exists|told: Result<String, SessionError>| #[trigger]
            call_ensures(unit, (), told) && seen(told) == state
}

/// In which ways turning the night light on or off can end.
pub type Switchings = spec_fn(bool, Result<(), Fault>) -> bool;

/// The ways in which a function can turn the night light on and off.
pub open spec fn switchings_of<S: FnOnce(bool) -> Result<(), SessionError>>(
    switch: S,
) -> Switchings {
    |enabled: bool, end: Result<(), Fault>|
        exists|done: Result<(), SessionError>| #[trigger]
            call_ensures(switch, (enabled,), done) && told(done) == end
}

impl View for DisplaySnapshot {
    type V = DisplaySnapshot;

    open spec fn view(&self) -> DisplaySnapshot {
        *self
    }
}

/// Whether the displays are read: what comes of the program and of the service
/// manager leads to them.
pub open spec fn snapshot_by(
    runs: Runs,
    reader: Reader,
    units: UnitStates,
    snapshot: Result<DisplaySnapshot, Fault>,
) -> bool {
    leads(
        runs,
        info_line(),
        snapshot,
        |output: Seq<u8>| night_light_by(units, brightness_in(output, reader), snapshot),
    )
}

/// Whether the night light is read after the brightness.
pub open spec fn night_light_by(
    units: UnitStates,
    brightness: Result<Level, Fault>,
    snapshot: Result<DisplaySnapshot, Fault>,
) -> bool {
    match brightness {
        Err(fault) => snapshot == Err::<DisplaySnapshot, Fault>(fault),
        Ok(level) => exists|state: Result<Seq<char>, Fault>| #[trigger]
            units(state) && snapshot == match state {
                Err(fault) => Err(fault),
                Ok(state) => match night_light(state) {
                    Err(fault) => Err(fault),
                    Ok(night_light_enabled) => Ok(
                        DisplaySnapshot { brightness: Some(level), night_light_enabled },
                    ),
                },
            },
    }
}

/// The program that reads the displays.
pub open spec fn reading_lines() -> spec_fn(CommandView) -> bool {
    |line: CommandView| line == info_line()
}

/// Reads the displays.
pub fn probe<
    R: Fn(&CommandSpec) -> Run,
    F: Fn(&str) -> Number,
    U: Fn() -> Result<String, SessionError>,
>(runner: &R, read: &F, unit: &U) -> (snapshot: Result<DisplaySnapshot, SessionError>)
    requires
        grants_all(*runner, reading_lines()),
        can_read(*read),
        call_requires(*unit, ()),
    ensures
        forall|reader: Reader| #[trigger]
            reads_by(*read, reader) ==> snapshot_by(
                runs_of(*runner),
                reader,
                states_of(*unit),
                seen(snapshot),
            ),
        snapshot is Ok ==> snapshot->Ok_0.brightness is Some,
{
    let output = match run(runner, info_spec()) {
        Ok(output) => output,
        Err(error) => return Err(error),
    };
    let level = match parse_brightness(output.as_slice(), read) {
        Ok(level) => level,
        Err(error) => return Err(error),
    };
    let state = unit();
    assert(states_of(*unit)(seen(state)));
    let state = match state {
        Ok(state) => state,
        Err(error) => return Err(error),
    };
    match night_light_state(state.as_str()) {
        Ok(night_light_enabled) => Ok(
            DisplaySnapshot { brightness: Some(level), night_light_enabled },
        ),
        Err(error) => Err(error),
    }
}

/// Whether the displays are as a change would leave them.
pub open spec fn confirmed(
    command: DisplayCommand,
    snapshot: DisplaySnapshot,
    nearness: Nearness,
) -> bool {
    match command {
        DisplayCommand::SetBrightness { .. } => snapshot.brightness is Some && nearness(
            snapshot.brightness->Some_0,
        ),
        DisplayCommand::SetNightLightEnabled { enabled } => snapshot.night_light_enabled
            == enabled,
    }
}

/// Compares the displays after a change with what the change would leave.
pub fn confirm<N: Fn(Level) -> bool>(
    command: &DisplayCommand,
    snapshot: DisplaySnapshot,
    near: &N,
) -> (result: Result<DisplaySnapshot, SessionError>)
    requires
        can_tell(*near),
    ensures
        forall|nearness: Nearness| #[trigger]
            near_by(*near, nearness) ==> if confirmed(*command, snapshot, nearness) {
                result == Ok::<DisplaySnapshot, SessionError>(snapshot)
            } else {
                fails_with(
                    result,
                    ErrorKind::Other,
                    "display readback did not confirm the requested state"@,
                )
            },
        result is Ok ==> result->Ok_0 == snapshot,
{
    let confirmed = match command {
        DisplayCommand::SetBrightness { .. } => match snapshot.brightness {
            Some(level) => {
                let close = near(level);
                proof {
                    assert forall|nearness: Nearness| #[trigger]
                        near_by(*near, nearness) implies close == nearness(level) by {}
                }
                close
            },
            None => false,
        },
        DisplayCommand::SetNightLightEnabled { enabled } => snapshot.night_light_enabled
            == *enabled,
    };
    if !confirmed {
        return Err(
            SessionError::new(
                ErrorKind::Other,
                "display readback did not confirm the requested state",
            ),
        );
    }
    Ok(snapshot)
}

/// The displays after a change, if they are as the change would leave them.
pub open spec fn confirmation(
    command: DisplayCommand,
    snapshot: DisplaySnapshot,
    nearness: Nearness,
) -> Result<DisplaySnapshot, Fault> {
    if confirmed(command, snapshot, nearness) {
        Ok(snapshot)
    } else {
        Err((ErrorKind::Other, "display readback did not confirm the requested state"@))
    }
}

/// Whether the displays are read after a change was made, or the change failed.
pub open spec fn settled_by(
    runs: Runs,
    reader: Reader,
    units: UnitStates,
    nearness: Nearness,
    command: DisplayCommand,
    made: Result<(), Fault>,
    result: Result<DisplaySnapshot, Fault>,
) -> bool {
    match made {
        Err(fault) => result == Err::<DisplaySnapshot, Fault>(fault),
        Ok(()) => exists|snapshot: Result<DisplaySnapshot, Fault>| #[trigger]
            snapshot_by(runs, reader, units, snapshot) && result == match snapshot {
                Ok(snapshot) => confirmation(command, snapshot, nearness),
                Err(fault) => Err(fault),
            },
    }
}

/// Whether a change can be made, and how that ends.
pub open spec fn made_by(
    changes: Runs,
    switchings: Switchings,
    command: DisplayCommand,
    made: Result<(), Fault>,
) -> bool {
    match command {
        DisplayCommand::SetBrightness { level, .. } => match brightness_line(level) {
            Err(fault) => made == Err::<(), Fault>(fault),
            Ok(line) => leads(changes, line, made, |_output: Seq<u8>| made == Ok::<(), Fault>(())),
        },
        DisplayCommand::SetNightLightEnabled { enabled } => switchings(enabled, made),
    }
}

/// Whether a change leads to a result: it is made, and the displays are read again.
pub open spec fn mutation_by(
    changes: Runs,
    runs: Runs,
    reader: Reader,
    units: UnitStates,
    switchings: Switchings,
    nearness: Nearness,
    command: DisplayCommand,
    result: Result<DisplaySnapshot, Fault>,
) -> bool {
    exists|made: Result<(), Fault>| #[trigger]
        made_by(changes, switchings, command, made) && settled_by(
            runs,
            reader,
            units,
            nearness,
            command,
            made,
            result,
        )
}

/// Whether a change can have been made.
pub open spec fn can_be_made(
    changes: Runs,
    switchings: Switchings,
    command: DisplayCommand,
) -> bool {
    exists|made: Result<(), Fault>| #[trigger]
        made_by(changes, switchings, command, made) && made is Ok
}

/// Whether a change may be made, and only it: the brightness by its own command
/// line, the night light by turning it on or off.
pub open spec fn may_make<
    C: FnOnce(&CommandSpec) -> Run,
    S: FnOnce(bool) -> Result<(), SessionError>,
>(change: C, switch: S, command: DisplayCommand) -> bool {
    match command {
        DisplayCommand::SetBrightness { level, .. } => brightness_line(level) matches Ok(line)
            ==> grants(change, line),
        DisplayCommand::SetNightLightEnabled { enabled } => call_requires(switch, (enabled,)),
    }
}

/// Whether a change may be made, once, and the displays may be read when it was
/// made, and not before.
pub open spec fn may_settle<
    C: FnOnce(&CommandSpec) -> Run,
    R: FnOnce(&CommandSpec) -> Run,
    U: Fn() -> Result<String, SessionError>,
    S: FnOnce(bool) -> Result<(), SessionError>,
>(change: C, runner: R, unit: U, switch: S, command: DisplayCommand) -> bool {
    &&& may_make(change, switch, command)
    &&& can_be_made(runs_of(change), switchings_of(switch), command) ==> grants_all(
        runner,
        reading_lines(),
    ) && call_requires(unit, ())
}

fn make<C: FnOnce(&CommandSpec) -> Run, S: FnOnce(bool) -> Result<(), SessionError>>(
    change: C,
    switch: S,
    command: &DisplayCommand,
) -> (made: Result<(), SessionError>)
    requires
        may_make(change, switch, *command),
    ensures
        made_by(runs_of(change), switchings_of(switch), *command, told(made)),
{
    match command {
        DisplayCommand::SetBrightness { output_id: _, level } => {
            let spec = match brightness_spec(level) {
                Ok(spec) => spec,
                Err(error) => return Err(error),
            };
            match run_once(change, spec) {
                Ok(_) => Ok(()),
                Err(error) => Err(error),
            }
        },
        DisplayCommand::SetNightLightEnabled { enabled } => {
            let done = switch(*enabled);
            assert(switchings_of(switch)(*enabled, told(done)));
            done
        },
    }
}

/// Makes a change, once, and then reads the displays again. The change succeeds
/// only if they confirm it.
pub fn mutate<
    C: FnOnce(&CommandSpec) -> Run,
    R: Fn(&CommandSpec) -> Run,
    F: Fn(&str) -> Number,
    U: Fn() -> Result<String, SessionError>,
    S: FnOnce(bool) -> Result<(), SessionError>,
    N: Fn(Level) -> bool,
>(
    change: C,
    runner: &R,
    read: &F,
    unit: &U,
    switch: S,
    near: &N,
    command: &DisplayCommand,
) -> (snapshot: Result<DisplaySnapshot, SessionError>)
    requires
        may_settle(change, *runner, *unit, switch, *command),
        can_read(*read),
        can_tell(*near),
    ensures
        forall|reader: Reader, nearness: Nearness|
            #![trigger reads_by(*read, reader), near_by(*near, nearness)]
            reads_by(*read, reader) && near_by(*near, nearness) ==> mutation_by(
                runs_of(change),
                runs_of(*runner),
                reader,
                states_of(*unit),
                switchings_of(switch),
                nearness,
                *command,
                seen(snapshot),
            ),
        snapshot is Ok ==> snapshot->Ok_0.brightness is Some,
{
    let made = make(change, switch, command);
    let ghost end = told(made);
    assert(made_by(runs_of(change), switchings_of(switch), *command, end));
    let result = match made {
        Ok(()) => match probe(runner, read, unit) {
            Ok(snapshot) => confirm(command, snapshot, near),
            Err(error) => Err(error),
        },
        Err(error) => Err(error),
    };
    proof {
        assert forall|reader: Reader, nearness: Nearness|
            #![trigger reads_by(*read, reader), near_by(*near, nearness)]
            reads_by(*read, reader) && near_by(*near, nearness) implies mutation_by(
            runs_of(change),
            runs_of(*runner),
            reader,
            states_of(*unit),
            switchings_of(switch),
            nearness,
            *command,
            seen(result),
        ) by {
            assert(made_by(runs_of(change), switchings_of(switch), *command, end));
        }
    }
    result
}

/// A change that succeeds was made, and was confirmed by what was then read of the
/// displays.
pub proof fn a_change_is_confirmed(
    changes: Runs,
    runs: Runs,
    reader: Reader,
    units: UnitStates,
    switchings: Switchings,
    nearness: Nearness,
    command: DisplayCommand,
    snapshot: DisplaySnapshot,
)
    requires
        mutation_by(
            changes,
            runs,
            reader,
            units,
            switchings,
            nearness,
            command,
            Ok::<DisplaySnapshot, Fault>(snapshot),
        ),
    ensures
        can_be_made(changes, switchings, command),
        confirmed(command, snapshot, nearness),
        snapshot_by(runs, reader, units, Ok::<DisplaySnapshot, Fault>(snapshot)),
{
}

/// The brightness is set as it was spelled; the night light is on in the states in which
/// its unit runs or is about to, and off in the others that are known.
pub proof fn displays_are_changed_in_these_words(
    level: RequestedLevel,
    enabled: bool,
    output_id: StableId,
    snapshot: DisplaySnapshot,
    nearness: Nearness,
)
    ensures
        level.normalized ==> brightness_line(level) == Ok::<CommandView, Fault>(
            CommandView {
                program: "brightnessctl"@,
                args: seq!["set"@, level.text@],
                timeout: Some(5_000),
            },
        ),
        !level.normalized ==> brightness_line(level) is Err,
        info_line() == (CommandView {
            program: "brightnessctl"@,
            args: seq!["--machine-readable"@, "info"@],
            timeout: None,
        }),
        confirmed(DisplayCommand::SetNightLightEnabled { enabled }, snapshot, nearness)
            <==> snapshot.night_light_enabled == enabled,
        confirmed(DisplayCommand::SetBrightness { output_id, level }, snapshot, nearness)
            <==> snapshot.brightness is Some && nearness(snapshot.brightness->Some_0),
        night_light("active"@) == Ok::<bool, Fault>(true),
        night_light("activating"@) == Ok::<bool, Fault>(true),
        night_light("reloading"@) == Ok::<bool, Fault>(true),
        night_light("inactive"@) == Ok::<bool, Fault>(false),
        night_light("deactivating"@) == Ok::<bool, Fault>(false),
        night_light("failed"@) == Ok::<bool, Fault>(false),
{
    reveal_strlit("active");
    reveal_strlit("activating");
    reveal_strlit("reloading");
    reveal_strlit("inactive");
    reveal_strlit("deactivating");
    reveal_strlit("failed");
    assert("inactive"@[0] == 'i');
    assert("deactivating"@[0] == 'd');
    assert("failed"@[0] == 'f');
    assert("active"@[0] == 'a');
    assert("activating"@[0] == 'a');
    assert("reloading"@[0] == 'r');
}

/// The brightness is the fourth field of the first row, without its sign.
pub proof fn the_brightness_is_read_as_it_is_told(
    output: Seq<u8>,
    reader: Reader,
    level: Level,
)
    requires
        brightness_in(output, reader) == Ok::<Level, Fault>(level),
    ensures
        ({
            let fields = split(lines(vstd::utf8::decode_utf8(output))[0], ',');
            &&& fields.len() >= 4
            &&& fields[3].last() == '%'
            &&& reader(fields[3].drop_last()) == Number::Level(level)
        }),
{
}

} // verus!

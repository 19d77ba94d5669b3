//! Power profiles, read and changed with `powerprofilesctl`.

use vstd::prelude::*;

use crate::command::{
    came_of, command_line, grants_all, leads, limited, may_change, run, run_once, runs_of,
    succeeded, CommandSpec, CommandView, Run, Runs,
};
use crate::error::{invalid, malformed, seen, ErrorKind, Fault, SessionError};
use crate::rows::{read_text, text_in};
use crate::text::{is_text, lines, lines_of, pieces, trim, trim_chars};

use super::domain::{DesktopPowerSnapshot, PowerProfile};

verus! {

/// The longest that a change may take, in milliseconds.
pub const PROFILE_TIMEOUT: u64 = 5_000;

pub open spec fn name_of(profile: PowerProfile) -> Seq<char> {
    match profile {
        PowerProfile::PowerSaver => "power-saver"@,
        PowerProfile::Balanced => "balanced"@,
        PowerProfile::Performance => "performance"@,
    }
}

fn profile_name(profile: PowerProfile) -> (name: &'static str)
    ensures
        name@ == name_of(profile),
{
    match profile {
        PowerProfile::PowerSaver => "power-saver",
        PowerProfile::Balanced => "balanced",
        PowerProfile::Performance => "performance",
    }
}

/// The profile with a name.
pub open spec fn profile_named(name: Seq<char>) -> Option<PowerProfile> {
    if name == "power-saver"@ {
        Some(PowerProfile::PowerSaver)
    } else if name == "balanced"@ {
        Some(PowerProfile::Balanced)
    } else if name == "performance"@ {
        Some(PowerProfile::Performance)
    } else {
        None
    }
}

/// A profile is found again by its name.
pub proof fn profile_names_lead_back(profile: PowerProfile)
    ensures
        profile_named(name_of(profile)) == Some(profile),
{
    reveal_strlit("power-saver");
    reveal_strlit("balanced");
    reveal_strlit("performance");
    assert("power-saver"@[1] == 'o');
    assert("balanced"@[1] == 'a');
    assert("performance"@[1] == 'e');
}

pub fn parse_profile(name: &[char]) -> (profile: Option<PowerProfile>)
    ensures
        profile == profile_named(name@),
{
    if is_text(name, "power-saver") {
        Some(PowerProfile::PowerSaver)
    } else if is_text(name, "balanced") {
        Some(PowerProfile::Balanced)
    } else if is_text(name, "performance") {
        Some(PowerProfile::Performance)
    } else {
        None
    }
}

pub open spec fn mutation_line(profile: PowerProfile) -> CommandView {
    limited("powerprofilesctl"@, seq!["set"@, name_of(profile)], PROFILE_TIMEOUT)
}

pub fn mutation_spec(profile: PowerProfile) -> (spec: CommandSpec)
    ensures
        spec@ == mutation_line(profile),
{
    let spec = CommandSpec::new("powerprofilesctl").within(PROFILE_TIMEOUT).arg("set").arg(
        profile_name(profile),
    );
    assert(spec@.args =~= seq!["set"@, name_of(profile)]);
    spec
}

/// The profile that a line of the list heads, if it heads one: its name, after an
/// asterisk where it is active, and before a colon.
pub open spec fn headed_profile(line: Seq<char>) -> Option<PowerProfile> {
    let head = trim(line);
    let name = trim(
        if head.len() > 0 && head[0] == '*' {
            head.skip(1)
        } else {
            head
        },
    );
    if name.len() > 0 && name.last() == ':' {
        profile_named(name.drop_last())
    } else {
        None
    }
}

fn read_header(line: &[char]) -> (profile: Option<PowerProfile>)
    ensures
        profile == headed_profile(line@),
{
    let head = trim_chars(line);
    let rest = if head.len() > 0 && head[0] == '*' {
        let rest = vstd::slice::slice_subrange(head, 1, head.len());
        assert(rest@ =~= head@.skip(1));
        rest
    } else {
        head
    };
    let name = trim_chars(rest);
    if name.len() > 0 && name[name.len() - 1] == ':' {
        let inner = vstd::slice::slice_subrange(name, 0, name.len() - 1);
        assert(inner@ =~= name@.drop_last());
        parse_profile(inner)
    } else {
        None
    }
}

/// The profiles that the first lines head.
pub open spec fn headed_profiles(rows: Seq<Seq<char>>) -> Seq<PowerProfile>
    decreases rows.len(),
{
    if rows.len() == 0 {
        Seq::empty()
    } else {
        let earlier = headed_profiles(rows.drop_last());
        match headed_profile(rows.last()) {
            Some(profile) => earlier.push(profile),
            None => earlier,
        }
    }
}

pub struct PowerView {
    pub active_profile: PowerProfile,
    pub available_profiles: Seq<PowerProfile>,
}

impl View for DesktopPowerSnapshot {
    type V = PowerView;

    open spec fn view(&self) -> PowerView {
        PowerView {
            active_profile: self.active_profile,
            available_profiles: self.available_profiles@,
        }
    }
}

/// The profiles are consistent: there are some, none twice, and the active one is
/// among them.
pub open spec fn consistent(power: PowerView) -> bool {
    &&& power.available_profiles.len() > 0
    &&& power.available_profiles.no_duplicates()
    &&& power.available_profiles.contains(power.active_profile)
}

/// What the two outputs tell of the profiles.
pub open spec fn snapshot_in(current: Seq<u8>, available: Seq<u8>) -> Result<PowerView, Fault> {
    match text_in(current, "power profile output is not UTF-8"@) {
        Err(fault) => Err(fault),
        Ok(current) => match profile_named(trim(current)) {
            None => malformed("power profile is unknown"@),
            Some(active_profile) => match text_in(
                available,
                "power profile output is not UTF-8"@,
            ) {
                Err(fault) => Err(fault),
                Ok(available) => {
                    let power = PowerView {
                        active_profile,
                        available_profiles: headed_profiles(lines(available)),
                    };
                    if consistent(power) {
                        Ok(power)
                    } else {
                        malformed("power profile readback is inconsistent"@)
                    }
                },
            },
        },
    }
}

pub fn has_profile(profiles: &Vec<PowerProfile>, profile: PowerProfile) -> (found: bool)
    ensures
        found == profiles@.contains(profile),
{
    for i in 0..profiles.len()
        invariant
            forall|j: int| 0 <= j < i ==> profiles@[j] != profile,
    {
        if profiles[i] == profile {
            return true;
        }
    }
    false
}

pub fn parse_snapshot(current: &[u8], available: &[u8]) -> (snapshot: Result<
    DesktopPowerSnapshot,
    SessionError,
>)
    ensures
        seen(snapshot) == snapshot_in(current@, available@),
{
    let current = match read_text(current, "power profile output is not UTF-8") {
        Ok(current) => current,
        Err(error) => return Err(error),
    };
    let active_profile = match parse_profile(trim_chars(current.as_slice())) {
        Some(profile) => profile,
        None => return invalid("power profile is unknown"),
    };
    let available = match read_text(available, "power profile output is not UTF-8") {
        Ok(available) => available,
        Err(error) => return Err(error),
    };
    let rows = lines_of(available.as_slice());
    let ghost all = lines(available@);
    let mut profiles: Vec<PowerProfile> = Vec::new();
    let mut repeated = false;
    for i in 0..rows.len()
        invariant
            all == pieces(rows@),
            profiles@ == headed_profiles(all.take(i as int)),
            repeated == !profiles@.no_duplicates(),
    {
        proof {
            assert(all.take(i + 1).drop_last() =~= all.take(i as int));
            assert(all[i as int] == rows@[i as int]@);
        }
        match read_header(rows[i].as_slice()) {
            Some(profile) => {
                let ghost before = profiles@;
                let known = has_profile(&profiles, profile);
                profiles.push(profile);
                proof {
                    if known {
                        let at = choose|j: int| 0 <= j < before.len() && before[j] == profile;
                        assert(profiles@[at] == profiles@[before.len() as int]);
                    }
                    if !before.no_duplicates() {
                        let (a, b) = choose|a: int, b: int|
                            0 <= a < before.len() && 0 <= b < before.len() && a != b && before[a]
                                == before[b];
                        assert(profiles@[a] == profiles@[b]);
                    }
                }
                repeated = repeated || known;
            },
            None => {},
        }
    }
    assert(all.take(all.len() as int) =~= all);
    assert(all.len() == rows@.len());
    if profiles.len() == 0 || repeated || !has_profile(&profiles, active_profile) {
        return invalid("power profile readback is inconsistent");
    }
    Ok(DesktopPowerSnapshot { active_profile, available_profiles: profiles })
}

pub open spec fn current_line() -> CommandView {
    command_line("powerprofilesctl"@, seq!["get"@])
}

pub open spec fn available_line() -> CommandView {
    command_line("powerprofilesctl"@, seq!["list"@])
}

/// Whether the profiles were read: what came of the two programs leads to them.
pub open spec fn snapshot_by(
    runs: Runs,
    snapshot: Result<PowerView, Fault>,
) -> bool {
    leads(
        runs,
        current_line(),
        snapshot,
        |current: Seq<u8>|
            leads(
                runs,
                available_line(),
                snapshot,
                |available: Seq<u8>| snapshot == snapshot_in(current, available),
            ),
    )
}

/// The programs that read the profiles.
pub open spec fn reading_lines() -> spec_fn(CommandView) -> bool {
    |line: CommandView| line == current_line() || line == available_line()
}

/// Reads the profiles.
pub fn probe<R: Fn(&CommandSpec) -> Run>(runner: &R) -> (snapshot: Result<
    DesktopPowerSnapshot,
    SessionError,
>)
    requires
        grants_all(*runner, reading_lines()),
    ensures
        snapshot_by(runs_of(*runner), seen(snapshot)),
{
    let spec = CommandSpec::new("powerprofilesctl").arg("get");
    assert(spec@.args =~= seq!["get"@]);
    let current = match run(runner, spec) {
        Ok(current) => current,
        Err(error) => return Err(error),
    };
    let spec = CommandSpec::new("powerprofilesctl").arg("list");
    assert(spec@.args =~= seq!["list"@]);
    let available = match run(runner, spec) {
        Ok(available) => available,
        Err(error) => return Err(error),
    };
    parse_snapshot(current.as_slice(), available.as_slice())
}

/// The profiles after a change, if the profile is the active one.
pub open spec fn confirmation(profile: PowerProfile, snapshot: PowerView) -> Result<
    PowerView,
    Fault,
> {
    if snapshot.active_profile == profile {
        Ok(snapshot)
    } else {
        Err((ErrorKind::Other, "power profile readback did not confirm the requested state"@))
    }
}

/// Compares the profiles after a change with what the change would leave.
pub fn confirm(profile: PowerProfile, snapshot: DesktopPowerSnapshot) -> (result: Result<
    DesktopPowerSnapshot,
    SessionError,
>)
    ensures
        seen(result) == confirmation(profile, snapshot@),
{
    if snapshot.active_profile != profile {
        return Err(
            SessionError::new(
                ErrorKind::Other,
                "power profile readback did not confirm the requested state",
            ),
        );
    }
    Ok(snapshot)
}

/// Whether a change was made: the program that makes it and the programs that then
/// read the profiles lead to the result.
pub open spec fn mutation_by(
    changes: Runs,
    runs: Runs,
    profile: PowerProfile,
    result: Result<PowerView, Fault>,
) -> bool {
    leads(
        changes,
        mutation_line(profile),
        result,
        |_output: Seq<u8>|
            exists|snapshot: Result<PowerView, Fault>| #[trigger]
                snapshot_by(runs, snapshot) && result == match snapshot {
                    Ok(snapshot) => confirmation(profile, snapshot),
                    Err(fault) => Err(fault),
                },
    )
}

/// Makes a profile the active one, and then reads the profiles again. The change
/// succeeds only if they confirm it.
pub fn mutate<C: FnOnce(&CommandSpec) -> Run, R: Fn(&CommandSpec) -> Run>(
    change: C,
    runner: &R,
    profile: PowerProfile,
) -> (snapshot: Result<DesktopPowerSnapshot, SessionError>)
    requires
        may_change(
            change,
            *runner,
            Ok::<CommandView, Fault>(mutation_line(profile)),
            reading_lines(),
        ),
    ensures
        mutation_by(runs_of(change), runs_of(*runner), profile, seen(snapshot)),
{
    match run_once(change, mutation_spec(profile)) {
        Ok(_) => {},
        Err(error) => return Err(error),
    }
    let snapshot = match probe(runner) {
        Ok(snapshot) => snapshot,
        Err(error) => return Err(error),
    };
    confirm(profile, snapshot)
}

/// A change that succeeds was accepted by the program that makes it, and was
/// confirmed by what the programs that read the profiles gave.
pub proof fn a_change_is_confirmed(
    changes: Runs,
    runs: Runs,
    profile: PowerProfile,
    snapshot: PowerView,
)
    requires
        mutation_by(changes, runs, profile, Ok::<PowerView, Fault>(snapshot)),
    ensures
        succeeded(changes, mutation_line(profile)),
        snapshot.active_profile == profile,
        snapshot_by(runs, Ok::<PowerView, Fault>(snapshot)),
{
    let outcome = choose|outcome: Result<Seq<u8>, Fault>| #[trigger]
        came_of(changes, mutation_line(profile), outcome) && outcome is Ok;
    assert(came_of(changes, mutation_line(profile), Ok::<Seq<u8>, Fault>(outcome->Ok_0)));
}

/// A profile is set by its own name, and confirmed exactly where it is then the active
/// one.
pub proof fn profiles_are_set_in_these_words(profile: PowerProfile, snapshot: PowerView)
    ensures
        mutation_line(PowerProfile::PowerSaver) == (CommandView {
            program: "powerprofilesctl"@,
            args: seq!["set"@, "power-saver"@],
            timeout: Some(5_000),
        }),
        mutation_line(PowerProfile::Balanced) == (CommandView {
            program: "powerprofilesctl"@,
            args: seq!["set"@, "balanced"@],
            timeout: Some(5_000),
        }),
        mutation_line(PowerProfile::Performance) == (CommandView {
            program: "powerprofilesctl"@,
            args: seq!["set"@, "performance"@],
            timeout: Some(5_000),
        }),
        confirmation(profile, snapshot) is Ok <==> snapshot.active_profile == profile,
        confirmation(profile, snapshot) is Ok ==> confirmation(profile, snapshot)->Ok_0
            == snapshot,
        profile_named("power-saver"@) == Some(PowerProfile::PowerSaver),
        profile_named("balanced"@) == Some(PowerProfile::Balanced),
        profile_named("performance"@) == Some(PowerProfile::Performance),
{
    profile_names_lead_back(PowerProfile::PowerSaver);
    profile_names_lead_back(PowerProfile::Balanced);
    profile_names_lead_back(PowerProfile::Performance);
}

/// The active profile is the one that the program names, and it is among those that are
/// listed, none twice.
pub proof fn profiles_are_read_as_they_are_told(
    current: Seq<u8>,
    available: Seq<u8>,
    power: PowerView,
)
    requires
        snapshot_in(current, available) == Ok::<PowerView, Fault>(power),
    ensures
        profile_named(trim(vstd::utf8::decode_utf8(current))) == Some(power.active_profile),
        power.available_profiles == headed_profiles(lines(vstd::utf8::decode_utf8(available))),
        power.available_profiles.contains(power.active_profile),
        power.available_profiles.no_duplicates(),
{
}

} // verus!

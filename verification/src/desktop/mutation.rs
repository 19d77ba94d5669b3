//! Carrying out the commands of the desktop.

use vstd::prelude::*;

use crate::command::{grants_all, may_change, runs_of, CommandSpec, CommandView, Run, Runs};
use crate::error::{fault_of, Fault, SessionError};

use super::audio::{AudioCommand, AudioView};
use super::bluetooth::{BluetoothCommand, BluetoothView};
use super::commands::{MediaTransport, SystemMutation};
use super::display::{
    may_settle, states_of, switchings_of, DisplayCommand, DisplaySnapshot, Switchings, UnitStates,
};
use super::domain::{
    domain_of, CapabilityAvailability, DesktopDomainId, DesktopDomainState, DesktopDomainValue,
    Level, PowerProfile, StableId,
};
use super::fraction::{
    can_read, can_tell, near_by, reads_by, Nearness, Number, Reader, RequestedLevel,
};
use super::media::{can_meter, may_steer, may_steer_only, meters_by, MediaCommand, MediaView, Meter, Progress};
use super::network::{NetworkCommand, NetworkView};
use super::power::PowerView;
use super::system::{
    available_with, core_view, display_part, display_value, mapped, probed, CoreView, Probed,
};

verus! {

/// A change of one system domain.
pub enum DesktopSystemMutation {
    Network(NetworkCommand),
    Bluetooth(BluetoothCommand),
    Audio(AudioCommand),
    Media(MediaCommand),
    Display(DisplayCommand),
    Power(PowerProfile),
}

pub enum DesktopSystemCommand {
    Domain(DesktopSystemMutation),
    Legacy(SystemMutation),
}

pub open spec fn display_domain(command: DisplayCommand) -> DesktopDomainId {
    match command {
        DisplayCommand::SetBrightness { .. } => DesktopDomainId::Brightness,
        DisplayCommand::SetNightLightEnabled { .. } => DesktopDomainId::NightLight,
    }
}

/// The domain that a command changes.
pub open spec fn changed_domain(command: DesktopSystemCommand) -> DesktopDomainId {
    match command {
        DesktopSystemCommand::Domain(mutation) => match mutation {
            DesktopSystemMutation::Network(_) => DesktopDomainId::Network,
            DesktopSystemMutation::Bluetooth(_) => DesktopDomainId::Bluetooth,
            DesktopSystemMutation::Audio(_) => DesktopDomainId::Audio,
            DesktopSystemMutation::Media(_) => DesktopDomainId::Media,
            DesktopSystemMutation::Display(command) => display_domain(command),
            DesktopSystemMutation::Power(_) => DesktopDomainId::Power,
        },
        DesktopSystemCommand::Legacy(mutation) => match mutation {
            SystemMutation::NetworkEnabled(_) => DesktopDomainId::Network,
            SystemMutation::BluetoothEnabled(_) => DesktopDomainId::Bluetooth,
            SystemMutation::AudioVolume(_) | SystemMutation::AudioMuted(_)
            | SystemMutation::AudioMicrophoneLevel(_) | SystemMutation::AudioMicrophoneMuted(_)
            | SystemMutation::AudioOutputDevice(_) => DesktopDomainId::Audio,
            SystemMutation::DisplayBrightness(_) => DesktopDomainId::Brightness,
            SystemMutation::DisplayNightLightEnabled(_) => DesktopDomainId::NightLight,
            SystemMutation::PowerProfile(_) => DesktopDomainId::Power,
            SystemMutation::MediaTransport(_) => DesktopDomainId::Media,
        },
    }
}

/// The world that commands act on.
pub struct World {
    /// What reads a domain before a change.
    pub prior: Runs,
    /// What makes the change.
    pub changes: Runs,
    /// What reads the domain after the change.
    pub runs: Runs,
    pub volumes: Reader,
    pub meter: Meter,
    pub percentages: Reader,
    pub units: UnitStates,
    pub switchings: Switchings,
    pub nearness: Nearness,
}

#[verifier::opaque]
pub open spec fn network_change(world: World, command: NetworkCommand, end: Probed) -> bool {
    exists|result: Result<NetworkView, Fault>| #[trigger]
        super::network::mutation_by(world.changes, world.runs, command, result) && end == mapped(
            result,
            |view: NetworkView| CoreView::Network(view),
        )
}

#[verifier::opaque]
pub open spec fn bluetooth_change(world: World, command: BluetoothCommand, end: Probed) -> bool {
    exists|result: Result<BluetoothView, Fault>| #[trigger]
        super::bluetooth::mutation_by(world.changes, world.runs, command, result) && end == mapped(
            result,
            |view: BluetoothView| CoreView::Bluetooth(view),
        )
}

#[verifier::opaque]
pub open spec fn audio_change(world: World, command: AudioCommand, end: Probed) -> bool {
    exists|result: Result<AudioView, Fault>| #[trigger]
        super::audio::mutation_by(world.changes, world.runs, world.volumes, world.nearness, command, result)
            && end == mapped(result, |view: AudioView| CoreView::Audio(view))
}

#[verifier::opaque]
pub open spec fn legacy_audio_change(world: World, mutation: SystemMutation, end: Probed) -> bool {
    exists|result: Result<AudioView, Fault>| #[trigger]
        super::audio::legacy_by(world.changes, world.runs, world.volumes, world.nearness, mutation, result)
            && end == mapped(result, |view: AudioView| CoreView::Audio(view))
}

#[verifier::opaque]
pub open spec fn media_change(world: World, command: MediaCommand, end: Probed) -> bool {
    exists|result: Result<MediaView, Fault>| #[trigger]
        super::media::mutation_by(world.prior, world.changes, world.runs, world.meter, command, result) && end == mapped(
            result,
            |view: MediaView| CoreView::Media(view),
        )
}

#[verifier::opaque]
pub open spec fn legacy_media_change(world: World, transport: MediaTransport, end: Probed) -> bool {
    exists|result: Result<MediaView, Fault>| #[trigger]
        super::media::legacy_by(world.prior, world.changes, world.runs, world.meter, transport, result) && end == mapped(
            result,
            |view: MediaView| CoreView::Media(view),
        )
}

#[verifier::opaque]
pub open spec fn power_change(world: World, profile: PowerProfile, end: Probed) -> bool {
    exists|result: Result<PowerView, Fault>| #[trigger]
        super::power::mutation_by(world.changes, world.runs, profile, result) && end == mapped(
            result,
            |view: PowerView| CoreView::Power(view),
        )
}

/// Whether a change of the displays leads to the part of its domain.
#[verifier::opaque]
pub open spec fn display_change(world: World, command: DisplayCommand, end: Probed) -> bool {
    exists|result: Result<DisplaySnapshot, Fault>| #[trigger]
        super::display::mutation_by(
            world.changes,
            world.runs,
            world.percentages,
            world.units,
            world.switchings,
            world.nearness,
            command,
            result,
        ) && end == mapped(
            result,
            |view: DisplaySnapshot| display_part(display_domain(command), view),
        )
}

/// Whether setting the brightness leads to an end; which display is meant does not
/// matter.
pub open spec fn brightness_change(world: World, level: RequestedLevel, end: Probed) -> bool {
    exists|output_id: StableId| #[trigger]
        display_change(world, DisplayCommand::SetBrightness { output_id, level }, end)
}

/// Whether a command leads to an end.
pub open spec fn changed(world: World, command: DesktopSystemCommand, end: Probed) -> bool {
    match command {
        DesktopSystemCommand::Domain(mutation) => match mutation {
            DesktopSystemMutation::Network(command) => network_change(world, command, end),
            DesktopSystemMutation::Bluetooth(command) => bluetooth_change(world, command, end),
            DesktopSystemMutation::Audio(command) => audio_change(world, command, end),
            DesktopSystemMutation::Media(command) => media_change(world, command, end),
            DesktopSystemMutation::Display(command) => display_change(world, command, end),
            DesktopSystemMutation::Power(profile) => power_change(world, profile, end),
        },
        DesktopSystemCommand::Legacy(mutation) => match mutation {
            SystemMutation::NetworkEnabled(enabled) => network_change(
                world,
                NetworkCommand::SetWifiEnabled { enabled },
                end,
            ),
            SystemMutation::BluetoothEnabled(powered) => bluetooth_change(
                world,
                BluetoothCommand::SetPowered { powered },
                end,
            ),
            SystemMutation::AudioVolume(_) | SystemMutation::AudioMuted(_)
            | SystemMutation::AudioMicrophoneLevel(_) | SystemMutation::AudioMicrophoneMuted(_)
            | SystemMutation::AudioOutputDevice(_) => legacy_audio_change(world, mutation, end),
            SystemMutation::DisplayBrightness(level) => brightness_change(world, level, end),
            SystemMutation::DisplayNightLightEnabled(enabled) => display_change(
                world,
                DisplayCommand::SetNightLightEnabled { enabled },
                end,
            ),
            SystemMutation::PowerProfile(profile) => power_change(world, profile, end),
            SystemMutation::MediaTransport(transport) => legacy_media_change(
                world,
                transport,
                end,
            ),
        },
    }
}

/// Whether a change of the network may be made, and the network read after it.
pub open spec fn network_granted<
    C: FnOnce(&CommandSpec) -> Run,
    R: FnOnce(&CommandSpec) -> Run,
>(change: C, runner: R, command: NetworkCommand) -> bool {
    may_change(
        change,
        runner,
        super::network::mutation_line(command),
        super::network::reading_lines(),
    )
}

/// Whether a change of Bluetooth may be made, and Bluetooth read after it.
pub open spec fn bluetooth_granted<
    C: FnOnce(&CommandSpec) -> Run,
    R: FnOnce(&CommandSpec) -> Run,
>(change: C, runner: R, command: BluetoothCommand) -> bool {
    may_change(
        change,
        runner,
        super::bluetooth::mutation_line(command),
        super::bluetooth::reading_lines(),
    )
}

/// Whether a profile may be made the active one, and the profiles read after it.
pub open spec fn power_granted<
    C: FnOnce(&CommandSpec) -> Run,
    R: FnOnce(&CommandSpec) -> Run,
>(change: C, runner: R, profile: PowerProfile) -> bool {
    may_change(
        change,
        runner,
        Ok::<CommandView, Fault>(super::power::mutation_line(profile)),
        super::power::reading_lines(),
    )
}

/// Whether a change of audio may be made, and audio read after it.
pub open spec fn audio_granted<
    C: FnOnce(&CommandSpec) -> Run,
    R: FnOnce(&CommandSpec) -> Run,
>(change: C, runner: R, command: AudioCommand) -> bool {
    may_change(
        change,
        runner,
        super::audio::mutation_line(command),
        super::audio::reading_lines(),
    )
}

/// Whether a change of a default node may be made, and audio read after it.
pub open spec fn default_audio_granted<
    C: FnOnce(&CommandSpec) -> Run,
    R: FnOnce(&CommandSpec) -> Run,
>(change: C, runner: R, mutation: SystemMutation) -> bool {
    may_change(
        change,
        runner,
        super::audio::legacy_line(mutation),
        super::audio::reading_lines(),
    )
}

/// Whether a player may be steered, and the players read before it and after it.
pub open spec fn media_granted<
    A: FnOnce(&CommandSpec) -> Run,
    C: FnOnce(&CommandSpec) -> Run,
    R: FnOnce(&CommandSpec) -> Run,
    M: Fn(&str, &str) -> Progress,
>(prior: A, change: C, runner: R, read_progress: M, command: MediaCommand) -> bool {
    let MediaCommand::Transport { player_id, transport } = command;
    &&& grants_all(prior, super::media::reading_lines())
    &&& may_steer(prior, change, runner, read_progress, player_id.0@, transport)
}

/// Whether the only player there is may be steered, and the players read before it
/// and after it.
pub open spec fn only_player_granted<
    A: FnOnce(&CommandSpec) -> Run,
    C: FnOnce(&CommandSpec) -> Run,
    R: FnOnce(&CommandSpec) -> Run,
    M: Fn(&str, &str) -> Progress,
>(prior: A, change: C, runner: R, read_progress: M, transport: MediaTransport) -> bool {
    &&& grants_all(prior, super::media::reading_lines())
    &&& forall|id: Seq<char>| #[trigger]
        may_steer_only(prior, change, runner, read_progress, id, transport)
}

/// Whether a command may be carried out: its change may be made, once, and its
/// domain may be read when the change was made, and not before.
pub open spec fn granted<
    A: FnOnce(&CommandSpec) -> Run,
    C: FnOnce(&CommandSpec) -> Run,
    R: FnOnce(&CommandSpec) -> Run,
    M: Fn(&str, &str) -> Progress,
    U: Fn() -> Result<String, SessionError>,
    S: FnOnce(bool) -> Result<(), SessionError>,
>(
    prior: A,
    change: C,
    runner: R,
    read_progress: M,
    unit: U,
    switch: S,
    command: DesktopSystemCommand,
) -> bool {
    match command {
        DesktopSystemCommand::Domain(mutation) => match mutation {
            DesktopSystemMutation::Network(command) => network_granted(change, runner, command),
            DesktopSystemMutation::Bluetooth(command) => bluetooth_granted(
                change,
                runner,
                command,
            ),
            DesktopSystemMutation::Audio(command) => audio_granted(change, runner, command),
            DesktopSystemMutation::Media(command) => media_granted(
                prior,
                change,
                runner,
                read_progress,
                command,
            ),
            DesktopSystemMutation::Display(command) => may_settle(
                change,
                runner,
                unit,
                switch,
                command,
            ),
            DesktopSystemMutation::Power(profile) => power_granted(change, runner, profile),
        },
        DesktopSystemCommand::Legacy(mutation) => match mutation {
            SystemMutation::NetworkEnabled(enabled) => network_granted(
                change,
                runner,
                NetworkCommand::SetWifiEnabled { enabled },
            ),
            SystemMutation::BluetoothEnabled(powered) => bluetooth_granted(
                change,
                runner,
                BluetoothCommand::SetPowered { powered },
            ),
            SystemMutation::AudioVolume(_) | SystemMutation::AudioMuted(_)
            | SystemMutation::AudioMicrophoneLevel(_) | SystemMutation::AudioMicrophoneMuted(_)
            | SystemMutation::AudioOutputDevice(_) => default_audio_granted(
                change,
                runner,
                mutation,
            ),
            SystemMutation::DisplayBrightness(level) => forall|output_id: StableId| #[trigger]
                brightness_granted(change, runner, unit, switch, output_id, level),
            SystemMutation::DisplayNightLightEnabled(enabled) => may_settle(
                change,
                runner,
                unit,
                switch,
                DisplayCommand::SetNightLightEnabled { enabled },
            ),
            SystemMutation::PowerProfile(profile) => power_granted(change, runner, profile),
            SystemMutation::MediaTransport(transport) => only_player_granted(
                prior,
                change,
                runner,
                read_progress,
                transport,
            ),
        },
    }
}

/// Whether the brightness of a display may be set, and the displays read after it.
pub open spec fn brightness_granted<
    C: FnOnce(&CommandSpec) -> Run,
    R: FnOnce(&CommandSpec) -> Run,
    U: Fn() -> Result<String, SessionError>,
    S: FnOnce(bool) -> Result<(), SessionError>,
>(
    change: C,
    runner: R,
    unit: U,
    switch: S,
    output_id: StableId,
    level: RequestedLevel,
) -> bool {
    may_settle(change, runner, unit, switch, DisplayCommand::SetBrightness { output_id, level })
}

fn change_network<
    C: FnOnce(&CommandSpec) -> Run,
    R: Fn(&CommandSpec) -> Run,
>(
    change: C,
    runner: &R,
    command: &NetworkCommand,
) -> (value: Result<DesktopDomainValue, SessionError>)
    requires
        network_granted(change, *runner, *command),
    ensures
        value is Ok ==> domain_of(value->Ok_0) == DesktopDomainId::Network && core_view(
            value->Ok_0,
        ) is Some,
        forall|world: World|
            #![trigger network_change(world, *command, probed(value))]
            world.changes == runs_of(change) && world.runs == runs_of(*runner) ==> network_change(world, *command, probed(value)),
{
    proof {
        reveal(network_change);
    }
    match super::network::mutate(change, runner, command) {
        Ok(value) => Ok(DesktopDomainValue::Network(value)),
        Err(error) => Err(error),
    }
}

fn change_bluetooth<
    C: FnOnce(&CommandSpec) -> Run,
    R: Fn(&CommandSpec) -> Run,
>(
    change: C,
    runner: &R,
    command: &BluetoothCommand,
) -> (value: Result<DesktopDomainValue, SessionError>)
    requires
        bluetooth_granted(change, *runner, *command),
    ensures
        value is Ok ==> domain_of(value->Ok_0) == DesktopDomainId::Bluetooth && core_view(
            value->Ok_0,
        ) is Some,
        forall|world: World|
            #![trigger bluetooth_change(world, *command, probed(value))]
            world.changes == runs_of(change) && world.runs == runs_of(*runner) ==> bluetooth_change(world, *command, probed(value)),
{
    proof {
        reveal(bluetooth_change);
    }
    match super::bluetooth::mutate(change, runner, command) {
        Ok(value) => Ok(DesktopDomainValue::Bluetooth(value)),
        Err(error) => Err(error),
    }
}

fn change_power<
    C: FnOnce(&CommandSpec) -> Run,
    R: Fn(&CommandSpec) -> Run,
>(
    change: C,
    runner: &R,
    profile: PowerProfile,
) -> (value: Result<DesktopDomainValue, SessionError>)
    requires
        power_granted(change, *runner, profile),
    ensures
        value is Ok ==> domain_of(value->Ok_0) == DesktopDomainId::Power && core_view(
            value->Ok_0,
        ) is Some,
        forall|world: World|
            #![trigger power_change(world, profile, probed(value))]
            world.changes == runs_of(change) && world.runs == runs_of(*runner) ==> power_change(world, profile, probed(value)),
{
    proof {
        reveal(power_change);
    }
    match super::power::mutate(change, runner, profile) {
        Ok(value) => Ok(DesktopDomainValue::Power(value)),
        Err(error) => Err(error),
    }
}

fn change_audio<
    C: FnOnce(&CommandSpec) -> Run,
    R: Fn(&CommandSpec) -> Run,
    V: Fn(&str) -> Number,
    N: Fn(Level) -> bool,
>(
    change: C,
    runner: &R,
    read_volume: &V,
    near: &N,
    command: &AudioCommand,
) -> (value: Result<DesktopDomainValue, SessionError>)
    requires
        audio_granted(change, *runner, *command),
        can_read(*read_volume),
        can_tell(*near),
    ensures
        value is Ok ==> domain_of(value->Ok_0) == DesktopDomainId::Audio && core_view(
            value->Ok_0,
        ) is Some,
        forall|world: World|
            #![trigger audio_change(world, *command, probed(value))]
            world.changes == runs_of(change) && world.runs == runs_of(*runner) && reads_by(*read_volume, world.volumes) && near_by(
                *near,
                world.nearness,
            ) ==> audio_change(world, *command, probed(value)),
{
    proof {
        reveal(audio_change);
    }
    match super::audio::mutate(change, runner, read_volume, near, command) {
        Ok(value) => Ok(DesktopDomainValue::Audio(value)),
        Err(error) => Err(error),
    }
}

fn change_default_audio<
    C: FnOnce(&CommandSpec) -> Run,
    R: Fn(&CommandSpec) -> Run,
    V: Fn(&str) -> Number,
    N: Fn(Level) -> bool,
>(
    change: C,
    runner: &R,
    read_volume: &V,
    near: &N,
    mutation: &SystemMutation,
) -> (value: Result<DesktopDomainValue, SessionError>)
    requires
        default_audio_granted(change, *runner, *mutation),
        can_read(*read_volume),
        can_tell(*near),
    ensures
        value is Ok ==> domain_of(value->Ok_0) == DesktopDomainId::Audio && core_view(
            value->Ok_0,
        ) is Some,
        forall|world: World|
            #![trigger legacy_audio_change(world, *mutation, probed(value))]
            world.changes == runs_of(change) && world.runs == runs_of(*runner) && reads_by(*read_volume, world.volumes) && near_by(
                *near,
                world.nearness,
            ) ==> legacy_audio_change(world, *mutation, probed(value)),
{
    proof {
        reveal(legacy_audio_change);
    }
    match super::audio::mutate_legacy(change, runner, read_volume, near, mutation) {
        Ok(value) => Ok(DesktopDomainValue::Audio(value)),
        Err(error) => Err(error),
    }
}

fn change_media<
    A: Fn(&CommandSpec) -> Run,
    C: FnOnce(&CommandSpec) -> Run,
    R: Fn(&CommandSpec) -> Run,
    M: Fn(&str, &str) -> Progress,
>(
    prior: &A,
    change: C,
    runner: &R,
    read_progress: &M,
    command: &MediaCommand,
) -> (value: Result<DesktopDomainValue, SessionError>)
    requires
        media_granted(*prior, change, *runner, *read_progress, *command),
        can_meter(*read_progress),
    ensures
        value is Ok ==> domain_of(value->Ok_0) == DesktopDomainId::Media && core_view(
            value->Ok_0,
        ) is Some,
        forall|world: World|
            #![trigger media_change(world, *command, probed(value))]
            world.prior == runs_of(*prior) && world.changes == runs_of(change) && world.runs == runs_of(*runner) && meters_by(*read_progress, world.meter)
                ==> media_change(world, *command, probed(value)),
{
    proof {
        reveal(media_change);
    }
    match super::media::mutate(prior, change, runner, read_progress, command) {
        Ok(value) => Ok(DesktopDomainValue::Media(value)),
        Err(error) => Err(error),
    }
}

fn change_only_player<
    A: Fn(&CommandSpec) -> Run,
    C: FnOnce(&CommandSpec) -> Run,
    R: Fn(&CommandSpec) -> Run,
    M: Fn(&str, &str) -> Progress,
>(
    prior: &A,
    change: C,
    runner: &R,
    read_progress: &M,
    transport: MediaTransport,
) -> (value: Result<DesktopDomainValue, SessionError>)
    requires
        only_player_granted(*prior, change, *runner, *read_progress, transport),
        can_meter(*read_progress),
    ensures
        value is Ok ==> domain_of(value->Ok_0) == DesktopDomainId::Media && core_view(
            value->Ok_0,
        ) is Some,
        forall|world: World|
            #![trigger legacy_media_change(world, transport, probed(value))]
            world.prior == runs_of(*prior) && world.changes == runs_of(change) && world.runs == runs_of(*runner) && meters_by(*read_progress, world.meter)
                ==> legacy_media_change(world, transport, probed(value)),
{
    proof {
        reveal(legacy_media_change);
    }
    match super::media::mutate_legacy(prior, change, runner, read_progress, transport) {
        Ok(value) => Ok(DesktopDomainValue::Media(value)),
        Err(error) => Err(error),
    }
}

/// Makes a change of the displays and gives the part of its domain.
fn change_display<
    C: FnOnce(&CommandSpec) -> Run,
    R: Fn(&CommandSpec) -> Run,
    P: Fn(&str) -> Number,
    U: Fn() -> Result<String, SessionError>,
    S: FnOnce(bool) -> Result<(), SessionError>,
    N: Fn(Level) -> bool,
>(
    change: C,
    runner: &R,
    read_percentage: &P,
    unit: &U,
    switch: S,
    near: &N,
    command: &DisplayCommand,
) -> (value: Result<DesktopDomainValue, SessionError>)
    requires
        may_settle(change, *runner, *unit, switch, *command),
        can_read(*read_percentage),
        can_tell(*near),
    ensures
        value is Ok ==> domain_of(value->Ok_0) == display_domain(*command) && core_view(
            value->Ok_0,
        ) is Some,
        forall|world: World|
            #![trigger display_change(world, *command, probed(value))]
            world.changes == runs_of(change) && world.runs == runs_of(*runner) && reads_by(*read_percentage, world.percentages)
                && world.units == states_of(*unit) && world.switchings == switchings_of(switch)
                && near_by(*near, world.nearness) ==> display_change(
                world,
                *command,
                probed(value),
            ),
{
    proof {
        reveal(display_change);
    }
    match super::display::mutate(change, runner, read_percentage, unit, switch, near, command) {
        Ok(snapshot) => {
            let domain = match command {
                DisplayCommand::SetBrightness { .. } => DesktopDomainId::Brightness,
                DisplayCommand::SetNightLightEnabled { .. } => DesktopDomainId::NightLight,
            };
            Ok(display_value(domain, snapshot))
        },
        Err(error) => Err(error),
    }
}

/// Whether the parts that a command acts through make up a world.
pub open spec fn acts_on<
    A: Fn(&CommandSpec) -> Run,
    C: FnOnce(&CommandSpec) -> Run,
    R: Fn(&CommandSpec) -> Run,
    V: Fn(&str) -> Number,
    M: Fn(&str, &str) -> Progress,
    P: Fn(&str) -> Number,
    U: Fn() -> Result<String, SessionError>,
    S: FnOnce(bool) -> Result<(), SessionError>,
    N: Fn(Level) -> bool,
>(
    prior: A,
    change: C,
    runner: R,
    read_volume: V,
    read_progress: M,
    read_percentage: P,
    unit: U,
    switch: S,
    near: N,
    world: World,
) -> bool {
    &&& world.prior == runs_of(prior)
    &&& world.changes == runs_of(change)
    &&& world.runs == runs_of(runner)
    &&& reads_by(read_volume, world.volumes)
    &&& meters_by(read_progress, world.meter)
    &&& reads_by(read_percentage, world.percentages)
    &&& world.units == states_of(unit)
    &&& world.switchings == switchings_of(switch)
    &&& near_by(near, world.nearness)
}

/// Carries out a command of a system domain. Its change is made once. The state
/// that it gives was read after the change and confirms it.
pub fn execute_system_command<
    A: Fn(&CommandSpec) -> Run,
    C: FnOnce(&CommandSpec) -> Run,
    R: Fn(&CommandSpec) -> Run,
    V: Fn(&str) -> Number,
    M: Fn(&str, &str) -> Progress,
    P: Fn(&str) -> Number,
    U: Fn() -> Result<String, SessionError>,
    S: FnOnce(bool) -> Result<(), SessionError>,
    N: Fn(Level) -> bool,
>(
    prior: &A,
    change: C,
    runner: &R,
    read_volume: &V,
    read_progress: &M,
    read_percentage: &P,
    unit: &U,
    switch: S,
    near: &N,
    command: DesktopSystemCommand,
) -> (state: Result<DesktopDomainState, SessionError>)
    requires
        granted(*prior, change, *runner, *read_progress, *unit, switch, command),
        can_read(*read_volume),
        can_meter(*read_progress),
        can_read(*read_percentage),
        can_tell(*near),
    ensures
        state is Ok ==> {
            &&& state->Ok_0.of() == changed_domain(command)
            &&& state->Ok_0.state() == CapabilityAvailability::Available
        },
        forall|world: World| #[trigger]
            acts_on(
                *prior,
                change,
                *runner,
                *read_volume,
                *read_progress,
                *read_percentage,
                *unit,
                switch,
                *near,
                world,
            ) ==> exists|end: Probed| #[trigger]
                changed(world, command, end) && match end {
                    Ok(view) => state is Ok && available_with(
                        state->Ok_0,
                        changed_domain(command),
                        view,
                    ),
                    Err(fault) => state is Err && fault_of(state->Err_0) == fault,
                },
{
    let ghost given = command;
    let (domain, value) = match command {
        DesktopSystemCommand::Domain(mutation) => match mutation {
            DesktopSystemMutation::Network(command) => (
                DesktopDomainId::Network,
                change_network(change, runner, &command),
            ),
            DesktopSystemMutation::Bluetooth(command) => (
                DesktopDomainId::Bluetooth,
                change_bluetooth(change, runner, &command),
            ),
            DesktopSystemMutation::Audio(command) => (
                DesktopDomainId::Audio,
                change_audio(change, runner, read_volume, near, &command),
            ),
            DesktopSystemMutation::Media(command) => (
                DesktopDomainId::Media,
                change_media(prior, change, runner, read_progress, &command),
            ),
            DesktopSystemMutation::Display(command) => (
                match &command {
                    DisplayCommand::SetBrightness { .. } => DesktopDomainId::Brightness,
                    DisplayCommand::SetNightLightEnabled { .. } => DesktopDomainId::NightLight,
                },
                change_display(change, runner, read_percentage, unit, switch, near, &command),
            ),
            DesktopSystemMutation::Power(profile) => (
                DesktopDomainId::Power,
                change_power(change, runner, profile),
            ),
        },
        DesktopSystemCommand::Legacy(mutation) => match mutation {
            SystemMutation::NetworkEnabled(enabled) => (
                DesktopDomainId::Network,
                change_network(change, runner, &NetworkCommand::SetWifiEnabled { enabled }),
            ),
            SystemMutation::BluetoothEnabled(powered) => (
                DesktopDomainId::Bluetooth,
                change_bluetooth(change, runner, &BluetoothCommand::SetPowered { powered }),
            ),
            SystemMutation::DisplayBrightness(level) => {
                let command = DisplayCommand::SetBrightness {
                    output_id: StableId("legacy-global".to_owned()),
                    level,
                };
                assert(brightness_granted(
                    change,
                    *runner,
                    *unit,
                    switch,
                    command->output_id,
                    level,
                ));
                let value = change_display(
                    change,
                    runner,
                    read_percentage,
                    unit,
                    switch,
                    near,
                    &command,
                );
                proof {
                    assert forall|world: World|
                        #![trigger brightness_change(world, level, probed(value))]
                        display_change(world, command, probed(value)) implies brightness_change(
                        world,
                        level,
                        probed(value),
                    ) by {}
                }
                (DesktopDomainId::Brightness, value)
            },
            SystemMutation::DisplayNightLightEnabled(enabled) => {
                let command = DisplayCommand::SetNightLightEnabled { enabled };
                let value = change_display(
                    change,
                    runner,
                    read_percentage,
                    unit,
                    switch,
                    near,
                    &command,
                );
                (DesktopDomainId::NightLight, value)
            },
            SystemMutation::PowerProfile(profile) => (
                DesktopDomainId::Power,
                change_power(change, runner, profile),
            ),
            SystemMutation::MediaTransport(transport) => (
                DesktopDomainId::Media,
                change_only_player(prior, change, runner, read_progress, transport),
            ),
            audio => (
                DesktopDomainId::Audio,
                change_default_audio(change, runner, read_volume, near, &audio),
            ),
        },
    };
    proof {
        assert forall|world: World| #[trigger]
            acts_on(
                *prior,
                change,
                *runner,
                *read_volume,
                *read_progress,
                *read_percentage,
                *unit,
                switch,
                *near,
                world,
            ) implies changed(world, given, probed(value)) by {}
    }
    match value {
        Ok(value) => DesktopDomainState::available(domain, value),
        Err(error) => Err(error),
    }
}

} // verus!

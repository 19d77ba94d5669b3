//! What comes of a change of the system, and what the records of other providers and
//! of the host come to.

use vstd::prelude::*;

use crate::command::{came_of, succeeded, CommandView, Runs};
use crate::desktop::audio::{
    legacy_confirmation, legacy_wanted, node_identifier, node_is, AudioCommand, AudioView,
};
use crate::desktop::bluetooth::{BluetoothCommand, BluetoothView};
use crate::desktop::commands::{MediaTransport, SystemMutation};
use crate::desktop::display::{made_by, settled_by, DisplayCommand, DisplaySnapshot, UnitStates};
use crate::desktop::domain::{
    AudioNodeKind, BrightnessSnapshot, CapabilityAvailability, DesktopDomainId,
    DesktopDomainState, Level, NetworkConnectionKind, NightLightSnapshot, PowerProfile, StableId,
    StateView, DOMAIN_COUNT,
};
use crate::desktop::fraction::{Nearness, Number, Reader, RequestedLevel};
use crate::desktop::localize::{
    baseline, contributions, dropped_view, heavier, heaviest, heaviest_facts, invalid_view,
    isolated, lightened, screened, Contribution, Said, Verdict,
};
use crate::desktop::media::Meter;
use crate::desktop::mutation::{
    audio_change, bluetooth_change, changed, changed_domain, display_change, display_domain,
    legacy_audio_change, legacy_media_change, media_change, network_change, power_change,
    DesktopSystemCommand, DesktopSystemMutation, World,
};
use crate::desktop::network::{readback_by, NetworkCommand, NetworkView, ReadbackView};
use crate::desktop::power::{profile_named, PowerView};
use crate::desktop::resources::{
    counters_in, idle_share, keyed_word, memory_in, numbers_in, resources_in, rest_of, sum_of,
    CpuCounters,
};
use crate::desktop::system::{
    converted, core_view, display_part, domain_by, is_system_domain, known_profiles, mapped,
    reports, told_by_record, CapabilityRecord, CapabilityValue, CoreView, Probed,
};
use crate::error::{ErrorKind, Fault};
use crate::text::{
    decimal, decimal_spells_the_number, is_blank, is_digit, lines, starts_with, texts, words,
};

verus! {

// ---------------------------------------------------------------------------
// Changes of the system
// ---------------------------------------------------------------------------

/// A switch of the wireless network that succeeded left it as it was asked to be, and
/// what was run for it says so.
pub proof fn a_switched_network_is_as_asked(world: World, enabled: bool, end: Probed)
    requires
        changed(
            world,
            DesktopSystemCommand::Domain(
                DesktopSystemMutation::Network(NetworkCommand::SetWifiEnabled { enabled }),
            ),
            end,
        ) || changed(
            world,
            DesktopSystemCommand::Legacy(SystemMutation::NetworkEnabled(enabled)),
            end,
        ),
        end is Ok,
    ensures
        end->Ok_0 is Network,
        end->Ok_0->Network_0.wifi_enabled == enabled,
        succeeded(
            world.changes,
            CommandView {
                program: "nmcli"@,
                args: seq![
                    "radio"@,
                    "wifi"@,
                    if enabled {
                        "on"@
                    } else {
                        "off"@
                    },
                ],
                timeout: Some(10_000),
            },
        ),
{
    let command = NetworkCommand::SetWifiEnabled { enabled };
    reveal(network_change);
    assert(network_change(world, command, end));
    let result = choose|result: Result<NetworkView, Fault>| #[trigger]
        crate::desktop::network::mutation_by(world.changes, world.runs, command, result) && end
            == mapped(result, |view: NetworkView| CoreView::Network(view));
    let line = crate::desktop::network::mutation_line(command)->Ok_0;
    assert(line.args =~= seq![
        "radio"@,
        "wifi"@,
        if enabled {
            "on"@
        } else {
            "off"@
        },
    ]);
    let outcome = choose|outcome: Result<Seq<u8>, Fault>| #[trigger]
        came_of(world.changes, line, outcome) && match outcome {
            Ok(output) => exists|readback: Result<ReadbackView, Fault>| #[trigger]
                readback_by(world.runs, readback) && result == match readback {
                    Ok(readback) => crate::desktop::network::confirmation(command, readback),
                    Err(fault) => Err(fault),
                },
            Err(fault) => result == Err::<NetworkView, Fault>(fault),
        };
    assert(came_of(world.changes, line, Ok::<Seq<u8>, Fault>(outcome->Ok_0)));
}

/// A switch of Bluetooth that succeeded left it as it was asked to be.
pub proof fn a_switched_controller_is_as_asked(world: World, powered: bool, end: Probed)
    requires
        changed(
            world,
            DesktopSystemCommand::Domain(
                DesktopSystemMutation::Bluetooth(BluetoothCommand::SetPowered { powered }),
            ),
            end,
        ) || changed(
            world,
            DesktopSystemCommand::Legacy(SystemMutation::BluetoothEnabled(powered)),
            end,
        ),
        end is Ok,
    ensures
        end->Ok_0 is Bluetooth,
        end->Ok_0->Bluetooth_0.powered == powered,
{
    let command = BluetoothCommand::SetPowered { powered };
    reveal(bluetooth_change);
    assert(bluetooth_change(world, command, end));
    let result = choose|result: Result<BluetoothView, Fault>| #[trigger]
        crate::desktop::bluetooth::mutation_by(world.changes, world.runs, command, result) && end
            == mapped(result, |view: BluetoothView| CoreView::Bluetooth(view));
    assert(result is Ok);
}

/// A change of the power profile that succeeded left that profile active.
pub proof fn a_changed_profile_is_as_asked(world: World, profile: PowerProfile, end: Probed)
    requires
        changed(
            world,
            DesktopSystemCommand::Domain(DesktopSystemMutation::Power(profile)),
            end,
        ) || changed(
            world,
            DesktopSystemCommand::Legacy(SystemMutation::PowerProfile(profile)),
            end,
        ),
        end is Ok,
    ensures
        end->Ok_0 is Power,
        end->Ok_0->Power_0.active_profile == profile,
{
    reveal(power_change);
    assert(power_change(world, profile, end));
    let result = choose|result: Result<PowerView, Fault>| #[trigger]
        crate::desktop::power::mutation_by(world.changes, world.runs, profile, result) && end
            == mapped(result, |view: PowerView| CoreView::Power(view));
    assert(result is Ok);
}

/// A switch of the night light that succeeded was asked of it and left it as asked.
pub proof fn a_switched_night_light_is_as_asked(world: World, enabled: bool, end: Probed)
    requires
        changed(
            world,
            DesktopSystemCommand::Domain(
                DesktopSystemMutation::Display(DisplayCommand::SetNightLightEnabled { enabled }),
            ),
            end,
        ) || changed(
            world,
            DesktopSystemCommand::Legacy(SystemMutation::DisplayNightLightEnabled(enabled)),
            end,
        ),
        end is Ok,
    ensures
        end->Ok_0 == CoreView::NightLight(NightLightSnapshot { enabled }),
        exists|made: Result<(), Fault>| #[trigger] (world.switchings)(enabled, made) && made is Ok,
{
    let command = DisplayCommand::SetNightLightEnabled { enabled };
    reveal(display_change);
    assert(display_change(world, command, end));
    let result = choose|result: Result<DisplaySnapshot, Fault>| #[trigger]
        crate::desktop::display::mutation_by(
            world.changes,
            world.runs,
            world.percentages,
            world.units,
            world.switchings,
            world.nearness,
            command,
            result,
        ) && end == mapped(
            result,
            |view: DisplaySnapshot| display_part(display_domain(command), view),
        );
    assert(result is Ok);
    let made = choose|made: Result<(), Fault>| #[trigger]
        made_by(world.changes, world.switchings, command, made) && settled_by(
            world.runs,
            world.percentages,
            world.units,
            world.nearness,
            command,
            made,
            result,
        );
    assert((world.switchings)(enabled, made) && made is Ok);
}

/// A change of the brightness that succeeded left it near what was asked, and what was
/// run for it names just that level.
pub proof fn a_changed_brightness_is_as_asked(
    world: World,
    output_id: StableId,
    level: RequestedLevel,
    end: Probed,
)
    requires
        changed(
            world,
            DesktopSystemCommand::Domain(
                DesktopSystemMutation::Display(DisplayCommand::SetBrightness { output_id, level }),
            ),
            end,
        ),
        end is Ok,
    ensures
        end->Ok_0 is Brightness,
        (world.nearness)(end->Ok_0->Brightness_0.level),
        level.normalized,
{
    let command = DisplayCommand::SetBrightness { output_id, level };
    reveal(display_change);
    let result = choose|result: Result<DisplaySnapshot, Fault>| #[trigger]
        crate::desktop::display::mutation_by(
            world.changes,
            world.runs,
            world.percentages,
            world.units,
            world.switchings,
            world.nearness,
            command,
            result,
        ) && end == mapped(
            result,
            |view: DisplaySnapshot| display_part(display_domain(command), view),
        );
    assert(result is Ok);
}

/// The sound that was muted is muted afterwards, the one that was not is not.
pub proof fn a_muted_node_is_as_asked(world: World, node_id: StableId, muted: bool, end: Probed)
    requires
        changed(
            world,
            DesktopSystemCommand::Domain(
                DesktopSystemMutation::Audio(AudioCommand::SetNodeMuted { node_id, muted }),
            ),
            end,
        ),
        end is Ok,
    ensures
        end->Ok_0 is Audio,
        exists|i: int|
            0 <= i < end->Ok_0->Audio_0.nodes.len() && (
            #[trigger] end->Ok_0->Audio_0.nodes[i]).id == node_id.0@
                && end->Ok_0->Audio_0.nodes[i].muted == muted,
{
    let command = AudioCommand::SetNodeMuted { node_id, muted };
    reveal(audio_change);
    let result = choose|result: Result<AudioView, Fault>| #[trigger]
        crate::desktop::audio::mutation_by(
            world.changes,
            world.runs,
            world.volumes,
            world.nearness,
            command,
            result,
        ) && end == mapped(result, |view: AudioView| CoreView::Audio(view));
    assert(crate::desktop::audio::confirmed(command, result->Ok_0, world.nearness));
    crate::desktop::audio::changes_are_confirmed_by_what_was_asked(
        result->Ok_0,
        world.nearness,
        node_id,
        node_id,
        arbitrary(),
        muted,
    );
    let nodes = result->Ok_0.nodes;
    let i = choose|i: int|
        0 <= i < nodes.len() && (#[trigger] nodes[i]).id == node_id.0@ && nodes[i].muted == muted;
    assert(end->Ok_0->Audio_0 == result->Ok_0);
    assert(end->Ok_0->Audio_0.nodes[i].id == node_id.0@);
}

/// A change shows the domain that it is about, and no other.
pub proof fn a_change_shows_its_own_domain(
    world: World,
    command: DesktopSystemCommand,
    end: Probed,
)
    requires
        changed(world, command, end),
        end is Ok,
    ensures
        changed_domain(command) == DesktopDomainId::Network <==> end->Ok_0 is Network,
        changed_domain(command) == DesktopDomainId::Bluetooth <==> end->Ok_0 is Bluetooth,
        changed_domain(command) == DesktopDomainId::Audio <==> end->Ok_0 is Audio,
        changed_domain(command) == DesktopDomainId::Media <==> end->Ok_0 is Media,
        changed_domain(command) == DesktopDomainId::Brightness <==> end->Ok_0 is Brightness,
        changed_domain(command) == DesktopDomainId::NightLight <==> end->Ok_0 is NightLight,
        changed_domain(command) == DesktopDomainId::Power <==> end->Ok_0 is Power,
{
    reveal(network_change);
    reveal(bluetooth_change);
    reveal(audio_change);
    reveal(legacy_audio_change);
    reveal(media_change);
    reveal(legacy_media_change);
    reveal(power_change);
    reveal(display_change);
}

/// A domain is read as what it is.
pub proof fn a_domain_is_read_as_what_it_is(
    domain: DesktopDomainId,
    runs: Runs,
    volumes: Reader,
    meter: Meter,
    percentages: Reader,
    units: UnitStates,
    read: Probed,
)
    requires
        domain_by(domain, runs, volumes, meter, percentages, units, read),
        read is Ok,
    ensures
        domain == DesktopDomainId::Network <==> read->Ok_0 is Network,
        domain == DesktopDomainId::Bluetooth <==> read->Ok_0 is Bluetooth,
        domain == DesktopDomainId::Audio <==> read->Ok_0 is Audio,
        domain == DesktopDomainId::Media <==> read->Ok_0 is Media,
        domain == DesktopDomainId::Power <==> read->Ok_0 is Power,
        domain == DesktopDomainId::Brightness <==> read->Ok_0 is Brightness,
        domain == DesktopDomainId::NightLight ==> read->Ok_0 is NightLight,
{
}

/// The parts of the display: the brightness is shown as the brightness, the night light as
/// the night light.
pub proof fn the_parts_of_the_display(level: Level, enabled: bool)
    ensures
        display_part(
            DesktopDomainId::Brightness,
            DisplaySnapshot { brightness: Some(level), night_light_enabled: enabled },
        ) == CoreView::Brightness(BrightnessSnapshot { level }),
        display_part(
            DesktopDomainId::NightLight,
            DisplaySnapshot { brightness: Some(level), night_light_enabled: enabled },
        ) == CoreView::NightLight(NightLightSnapshot { enabled }),
{
}

/// What a command changes.
pub proof fn which_domains_commands_change(command: DesktopSystemCommand)
    ensures
        changed_domain(command) == DesktopDomainId::NightLight <==> {
            ||| command is Legacy && command->Legacy_0 is DisplayNightLightEnabled
            ||| command is Domain && command->Domain_0 is Display
                && command->Domain_0->Display_0 is SetNightLightEnabled
        },
        changed_domain(command) == DesktopDomainId::Brightness <==> {
            ||| command is Legacy && command->Legacy_0 is DisplayBrightness
            ||| command is Domain && command->Domain_0 is Display
                && command->Domain_0->Display_0 is SetBrightness
        },
        changed_domain(command) == DesktopDomainId::Network <==> {
            ||| command is Legacy && command->Legacy_0 is NetworkEnabled
            ||| command is Domain && command->Domain_0 is Network
        },
        changed_domain(command) == DesktopDomainId::Bluetooth <==> {
            ||| command is Legacy && command->Legacy_0 is BluetoothEnabled
            ||| command is Domain && command->Domain_0 is Bluetooth
        },
        changed_domain(command) == DesktopDomainId::Power <==> {
            ||| command is Legacy && command->Legacy_0 is PowerProfile
            ||| command is Domain && command->Domain_0 is Power
        },
        changed_domain(command) == DesktopDomainId::Media <==> {
            ||| command is Legacy && command->Legacy_0 is MediaTransport
            ||| command is Domain && command->Domain_0 is Media
        },
        is_system_domain(changed_domain(command)),
{
}

/// What a probe that failed is shown as, and what one that succeeded is shown as.
pub proof fn how_a_probe_is_reported(
    state: DesktopDomainState,
    domain: DesktopDomainId,
    probed: Probed,
)
    requires
        reports(state, domain, probed),
    ensures
        state@.domain == domain,
        probed is Ok ==> {
            &&& state@.status == CapabilityAvailability::Available
            &&& state@.value is Some
            &&& core_view(state@.value->Some_0) == Some(probed->Ok_0)
            &&& state@.reason is None
        },
        probed is Err ==> {
            &&& state@.value is None
            &&& state@.status != CapabilityAvailability::Available
            &&& probed->Err_0.0 == ErrorKind::TimedOut <==> state@.status
                == CapabilityAvailability::Timeout
            &&& probed->Err_0.0 == ErrorKind::PermissionDenied <==> state@.status
                == CapabilityAvailability::PermissionDenied
            &&& probed->Err_0.0 == ErrorKind::Unsupported <==> state@.status
                == CapabilityAvailability::Unsupported
            &&& probed->Err_0.0 == ErrorKind::NotFound || probed->Err_0.0
                == ErrorKind::NotConnected <==> state@.status
                == CapabilityAvailability::Unavailable
            &&& !is_blank(probed->Err_0.1) ==> state@.reason == Some(probed->Err_0.1)
            &&& is_blank(probed->Err_0.1) ==> state@.reason == Some("desktop provider failed"@)
        },
{
}

// ---------------------------------------------------------------------------
// Records of other providers
// ---------------------------------------------------------------------------

/// A record of the network is taken over: its switch, and its one connection if it has one.
pub proof fn a_record_of_the_network_is_taken_over(wifi_enabled: bool, id: Option<String>)
    ensures
        ({
            let view = converted(
                DesktopDomainId::Network,
                CapabilityValue::Network { wifi_enabled, active_connection_id: id },
            );
            &&& view is Some
            &&& view->Some_0 is Network
            &&& view->Some_0->Network_0.wifi_enabled == wifi_enabled
            &&& view->Some_0->Network_0.access_points.len() == 0
            &&& !view->Some_0->Network_0.scanning
            &&& id is None ==> view->Some_0->Network_0.connections.len() == 0
            &&& id is Some ==> {
                &&& view->Some_0->Network_0.connections.len() == 1
                &&& view->Some_0->Network_0.connections[0].id == id->Some_0@
                &&& view->Some_0->Network_0.connections[0].name == id->Some_0@
                &&& view->Some_0->Network_0.connections[0].connected
                &&& view->Some_0->Network_0.connections[0].kind == NetworkConnectionKind::Wifi
            }
        }),
{
}

/// A record of Bluetooth is taken over: each device that it lists is paired and connected.
pub proof fn a_record_of_bluetooth_is_taken_over(powered: bool, ids: Vec<String>, i: int)
    ensures
        ({
            let view = converted(
                DesktopDomainId::Bluetooth,
                CapabilityValue::Bluetooth { powered, connected_device_ids: ids },
            );
            &&& view is Some
            &&& view->Some_0 is Bluetooth
            &&& view->Some_0->Bluetooth_0.powered == powered
            &&& !view->Some_0->Bluetooth_0.scanning
            &&& view->Some_0->Bluetooth_0.devices.len() == ids@.len()
            &&& 0 <= i < ids@.len() ==> {
                &&& view->Some_0->Bluetooth_0.devices[i].id == ids@[i]@
                &&& view->Some_0->Bluetooth_0.devices[i].name == ids@[i]@
                &&& view->Some_0->Bluetooth_0.devices[i].paired
                &&& view->Some_0->Bluetooth_0.devices[i].connected
            }
        }),
{
}

/// A record of the sound is taken over: the output with its own level and mark, the input
/// with its own.
pub proof fn a_record_of_the_sound_is_taken_over(
    id: Option<String>,
    output_level: Level,
    output_muted: bool,
    input_level: Level,
    input_muted: bool,
)
    ensures
        ({
            let view = converted(
                DesktopDomainId::Audio,
                CapabilityValue::Audio {
                    default_output_id: id,
                    output_level,
                    output_muted,
                    input_level,
                    input_muted,
                },
            );
            let nodes = view->Some_0->Audio_0.nodes;
            &&& view is Some
            &&& view->Some_0 is Audio
            &&& nodes.len() == 2
            &&& view->Some_0->Audio_0.streams.len() == 0
            &&& nodes[0].kind == AudioNodeKind::Output
            &&& nodes[0].volume == output_level
            &&& nodes[0].muted == output_muted
            &&& nodes[0].is_default
            &&& nodes[0].name == "Default output"@
            &&& id is Some ==> nodes[0].id == id->Some_0@
            &&& id is None ==> nodes[0].id == "default-output"@
            &&& nodes[1].kind == AudioNodeKind::Input
            &&& nodes[1].volume == input_level
            &&& nodes[1].muted == input_muted
            &&& nodes[1].is_default
            &&& nodes[1].name == "Default input"@
            &&& nodes[1].id == "default-input"@
        }),
{
}

/// A record of a player is taken over field by field.
pub proof fn a_record_of_a_player_is_taken_over(
    player_id: String,
    title: String,
    artist: String,
    playing: bool,
)
    ensures
        ({
            let view = converted(
                DesktopDomainId::Media,
                CapabilityValue::Media { player_id, title, artist, playing },
            );
            let players = view->Some_0->Media_0.players;
            &&& view is Some
            &&& view->Some_0 is Media
            &&& players.len() == 1
            &&& players[0].id == player_id@
            &&& players[0].title == title@
            &&& players[0].artist == artist@
            &&& players[0].playing == playing
            &&& players[0].identity == "MPRIS"@
            &&& players[0].progress.bits == 0
        }),
{
}

/// A record of the battery is taken over field by field.
pub proof fn a_record_of_the_battery_is_taken_over(
    percentage: u8,
    charging: bool,
    seconds_remaining: Option<u64>,
)
    ensures
        ({
            let view = converted(
                DesktopDomainId::Battery,
                CapabilityValue::Battery { percentage, charging, seconds_remaining },
            );
            &&& view is Some
            &&& view->Some_0 is Battery
            &&& view->Some_0->Battery_0.percentage == percentage
            &&& view->Some_0->Battery_0.charging == charging
            &&& view->Some_0->Battery_0.seconds_remaining == seconds_remaining
        }),
{
}

proof fn known_profiles_are_named(names: Seq<Seq<char>>, profile: PowerProfile)
    ensures
        known_profiles(names).contains(profile) <==> exists|i: int|
            0 <= i < names.len() && profile_named(#[trigger] names[i]) == Some(profile),
    decreases names.len(),
{
    let all = known_profiles(names);
    if names.len() > 0 {
        let shorter = names.drop_last();
        let earlier = known_profiles(shorter);
        let last = names.len() - 1;
        known_profiles_are_named(shorter, profile);
        if exists|i: int| 0 <= i < names.len() && profile_named(#[trigger] names[i]) == Some(profile)
        {
            let i = choose|i: int|
                0 <= i < names.len() && profile_named(#[trigger] names[i]) == Some(profile);
            if i < last {
                assert(profile_named(shorter[i]) == Some(profile));
                let k = choose|k: int| 0 <= k < earlier.len() && earlier[k] == profile;
                assert(all[k] == profile);
            } else {
                assert(all[earlier.len() as int] == profile);
            }
        }
        if all.contains(profile) {
            let k = choose|k: int| 0 <= k < all.len() && all[k] == profile;
            if k < earlier.len() {
                assert(earlier[k] == profile);
                let i = choose|i: int|
                    0 <= i < shorter.len() && profile_named(#[trigger] shorter[i]) == Some(profile);
                assert(profile_named(names[i]) == Some(profile));
            } else {
                assert(profile_named(names[last]) == Some(profile));
            }
        }
    }
}

/// A record of the power profiles is taken over when its active profile is one that is
/// known and offered.
pub proof fn a_record_of_the_profiles_is_taken_over(active: String, available: Vec<String>)
    ensures
        ({
            let view = converted(
                DesktopDomainId::Power,
                CapabilityValue::PowerProfile { active, available },
            );
            let offered = texts(available@);
            &&& view is Some <==> profile_named(active@) is Some && exists|i: int|
                0 <= i < offered.len() && profile_named(#[trigger] offered[i]) == profile_named(
                    active@,
                )
            &&& view is Some ==> view->Some_0 is Power && Some(
                view->Some_0->Power_0.active_profile,
            ) == profile_named(active@)
        }),
{
    if profile_named(active@) is Some {
        known_profiles_are_named(texts(available@), profile_named(active@)->Some_0);
    }
}

/// A record that is not available is shown with its own status; one whose value belongs
/// to another domain is not shown as available.
pub proof fn how_a_record_is_told(
    state: DesktopDomainState,
    domain: DesktopDomainId,
    record: CapabilityRecord,
)
    requires
        told_by_record(state, domain, record),
    ensures
        state@.domain == domain,
        record.status != CapabilityAvailability::Available ==> {
            &&& state@.status == record.status
            &&& state@.value is None
            &&& record.diagnostic is Some ==> state@.reason == Some(record.diagnostic->Some_0@)
            &&& record.diagnostic is None ==> state@.reason == Some("system provider failed"@)
        },
        state@.status == CapabilityAvailability::Available ==> record.value is Some && converted(
            domain,
            record.value->Some_0,
        ) is Some && core_view(state@.value->Some_0) == converted(domain, record.value->Some_0),
        record.status == CapabilityAvailability::Available && record.value is None
            ==> state@.status == CapabilityAvailability::Parse,
{
}

// ---------------------------------------------------------------------------
// The host
// ---------------------------------------------------------------------------

proof fn sum_of_five(a: u64, b: u64, c: u64, d: u64, e: u64)
    ensures
        sum_of(seq![a, b, c, d, e]) == a + b + c + d + e,
{
    let all = seq![a, b, c, d, e];
    reveal_with_fuel(sum_of, 6);
    assert(all.drop_last() =~= seq![a, b, c, d]);
    assert(seq![a, b, c, d].drop_last() =~= seq![a, b, c]);
    assert(seq![a, b, c].drop_last() =~= seq![a, b]);
    assert(seq![a, b].drop_last() =~= seq![a]);
    assert(seq![a].drop_last() =~= Seq::<u64>::empty());
}

proof fn numbers_of_decimals(list: Seq<u64>)
    ensures
        numbers_in(list.map_values(|n: u64| decimal(n as nat))) == Some(list),
    decreases list.len(),
{
    let spelled = list.map_values(|n: u64| decimal(n as nat));
    if list.len() > 0 {
        let shorter = list.drop_last();
        numbers_of_decimals(shorter);
        assert(spelled.drop_last() =~= shorter.map_values(|n: u64| decimal(n as nat)));
        let n = list.last();
        decimal_spells_the_number(n as nat);
        assert(is_digit(decimal(n as nat)[0]));
        assert(shorter.push(n) =~= list);
    } else {
        assert(list =~= Seq::empty());
    }
}

/// The line of the processors is read as it is shown: idle is what was idle and what
/// waited, and the total is everything.
pub proof fn the_processors_are_read(
    stat: Seq<char>,
    a: u64,
    b: u64,
    c: u64,
    d: u64,
    e: u64,
)
    requires
        lines(stat).len() > 0,
        starts_with(lines(stat)[0], "cpu "@),
        words(lines(stat)[0], true) == seq!["cpu"@] + seq![a, b, c, d, e].map_values(
            |n: u64| decimal(n as nat),
        ),
        a + b + c + d + e <= u64::MAX,
    ensures
        counters_in(stat) matches Ok(counters) && counters.idle == d + e && counters.total == a + b
            + c + d + e,
{
    let numbers = seq![a, b, c, d, e];
    numbers_of_decimals(numbers);
    sum_of_five(a, b, c, d, e);
    let all = words(lines(stat)[0], true);
    assert(rest_of(all) =~= numbers.map_values(|n: u64| decimal(n as nat)));
}

/// The memory of the host: the total and what is available, each from its own line.
pub proof fn the_memory_is_read(
    stat: Seq<char>,
    meminfo: Seq<char>,
    loadavg: Seq<char>,
    reader: Reader,
)
    ensures
        resources_in(stat, meminfo, loadavg, reader) matches Ok(found) ==> {
            &&& memory_in(meminfo, "MemTotal:"@) == Ok::<u64, Fault>(found.memory_total)
            &&& memory_in(meminfo, "MemAvailable:"@) == Ok::<u64, Fault>(found.memory_available)
            &&& 0 <= found.memory_available <= found.memory_total
            &&& found.memory_total > 0
            &&& counters_in(stat) == Ok::<CpuCounters, Fault>(found.cpu)
            &&& words(loadavg, true).len() > 0
            &&& reader(words(loadavg, true)[0]) == Number::Level(found.load_one)
        },
{
}

/// A counter of the memory is the number behind its key, on the first line that has it.
pub proof fn a_counter_follows_its_key(meminfo: Seq<char>, key: Seq<char>, at: int, n: u64)
    requires
        0 <= at < lines(meminfo).len(),
        words(lines(meminfo)[at], true).len() >= 2,
        words(lines(meminfo)[at], true)[0] == key,
        words(lines(meminfo)[at], true)[1] == decimal(n as nat),
        forall|i: int|
            0 <= i < at ==> (words(#[trigger] lines(meminfo)[i], true).len() < 2 || words(
                lines(meminfo)[i],
                true,
            )[0] != key),
    ensures
        memory_in(meminfo, key) == Ok::<u64, Fault>(n),
{
    decimal_spells_the_number(n as nat);
    assert(is_digit(decimal(n as nat)[0]));
    keyed_words_are_found(lines(meminfo), key, at);
}

proof fn keyed_words_are_found(rows: Seq<Seq<char>>, key: Seq<char>, at: int)
    requires
        0 <= at < rows.len(),
        words(rows[at], true).len() >= 2,
        words(rows[at], true)[0] == key,
        forall|i: int|
            0 <= i < at ==> (words(#[trigger] rows[i], true).len() < 2 || words(rows[i], true)[0]
                != key),
    ensures
        keyed_word(rows, key) == Some(words(rows[at], true)[1]),
    decreases rows.len(),
{
    if at > 0 {
        assert(words(rows[0], true).len() < 2 || words(rows[0], true)[0] != key);
        let rest = rows.skip(1);
        assert(rest[at - 1] == rows[at]);
        assert forall|i: int| 0 <= i < at - 1 implies (words(#[trigger] rest[i], true).len() < 2
            || words(rest[i], true)[0] != key) by {
            assert(rest[i] == rows[i + 1]);
        }
        keyed_words_are_found(rest, key, at - 1);
    }
}

/// The share of the time that was idle is counted from one look to the next.
pub proof fn the_idle_share_is_the_difference(previous: CpuCounters, current: CpuCounters)
    requires
        previous.idle <= current.idle,
        previous.total < current.total,
    ensures
        idle_share(previous, current) is Some <==> current.idle - previous.idle <= current.total
            - previous.total,
        idle_share(previous, current) matches Some(share) ==> share.0 == current.idle
            - previous.idle && share.1 == current.total - previous.total,
        idle_share(current, current) is None,
{
}

// ---------------------------------------------------------------------------
// What is dropped when there is too much
// ---------------------------------------------------------------------------

/// What is dropped first is the largest.
pub proof fn the_largest_is_dropped_first(
    verdicts: spec_fn(Said) -> Verdict,
    states: Said,
    list: Seq<Contribution>,
    at: int,
)
    requires
        list.len() > 0,
        0 <= at < list.len(),
        forall|i: int| 0 <= i < list.len() && i != at ==> (#[trigger] list[i]).bytes < list[at].bytes,
        verdicts(
            states.insert(
                list[at].domain,
                StateView {
                    domain: list[at].domain,
                    status: CapabilityAvailability::Parse,
                    value: None,
                    reason: Some("producer.aggregate-budget-exceeded"@),
                },
            ),
        ) is Ok,
    ensures
        lightened(verdicts, states, list) == Some(
            states.insert(
                list[at].domain,
                StateView {
                    domain: list[at].domain,
                    status: CapabilityAvailability::Parse,
                    value: None,
                    reason: Some("producer.aggregate-budget-exceeded"@),
                },
            ),
        ),
{
    heaviest_facts(list);
    let found = heaviest(list);
    assert(!heavier(list[at], list[found]));
}

/// Only what is available can be dropped, and it counts with what it takes.
pub proof fn what_can_be_dropped(
    verdicts: spec_fn(Said) -> Verdict,
    states: Said,
    place: int,
    i: int,
)
    requires
        0 <= i < contributions(verdicts, states, place).len(),
    ensures
        ({
            let one = contributions(verdicts, states, place)[i];
            &&& states.contains_key(one.domain)
            &&& states[one.domain].status == CapabilityAvailability::Available
            &&& verdicts(isolated(one.domain, states[one.domain])) matches Ok(bytes) ==> one.bytes
                == bytes
        }),
    decreases place,
{
    let earlier = contributions(verdicts, states, place - 1);
    if i < earlier.len() {
        what_can_be_dropped(verdicts, states, place - 1, i);
    }
}

/// What each replacement says.
pub proof fn what_replacements_say(domain: DesktopDomainId)
    ensures
        invalid_view(domain) == (StateView {
            domain,
            status: CapabilityAvailability::Parse,
            value: None,
            reason: Some("producer.contract-invalid"@),
        }),
        dropped_view(domain) == (StateView {
            domain,
            status: CapabilityAvailability::Parse,
            value: None,
            reason: Some("producer.aggregate-budget-exceeded"@),
        }),
        baseline().contains_key(domain),
        baseline()[domain] == (StateView {
            domain,
            status: CapabilityAvailability::Unsupported,
            value: None,
            reason: Some("producer.probe-isolation"@),
        }),
{
}

/// A state that is not valid on its own is replaced, and only such a state.
pub proof fn what_is_not_valid_is_replaced(
    verdicts: spec_fn(Said) -> Verdict,
    states: Said,
    place: int,
    domain: DesktopDomainId,
)
    requires
        0 <= domain.place() < place <= DOMAIN_COUNT,
        states.contains_key(domain),
    ensures
        screened(verdicts, states, place).contains_key(domain),
        verdicts(isolated(domain, states[domain])) is Err ==> screened(
            verdicts,
            states,
            place,
        )[domain].reason == Some("producer.contract-invalid"@),
        verdicts(isolated(domain, states[domain])) is Ok ==> screened(
            verdicts,
            states,
            place,
        )[domain] == states[domain],
    decreases place,
{
    places_are_taken_once(place - 1);
    if domain.place() < place - 1 {
        what_is_not_valid_is_replaced(verdicts, states, place - 1, domain);
    } else {
        what_is_not_reached_is_left(verdicts, states, place - 1, domain);
        places_lead_back(domain);
    }
}

proof fn what_is_not_reached_is_left(
    verdicts: spec_fn(Said) -> Verdict,
    states: Said,
    place: int,
    domain: DesktopDomainId,
)
    requires
        place <= domain.place(),
        place <= DOMAIN_COUNT,
        states.contains_key(domain),
    ensures
        screened(verdicts, states, place).contains_key(domain),
        screened(verdicts, states, place)[domain] == states[domain],
    decreases place,
{
    if place > 0 {
        what_is_not_reached_is_left(verdicts, states, place - 1, domain);
        places_are_taken_once(place - 1);
    }
}

proof fn places_are_taken_once(place: int)
    requires
        0 <= place < DOMAIN_COUNT,
    ensures
        DesktopDomainId::at(place).place() == place,
{
}

proof fn places_lead_back(domain: DesktopDomainId)
    ensures
        DesktopDomainId::at(domain.place()) == domain,
        0 <= domain.place() < DOMAIN_COUNT,
{
}

/// A change of the sound without a device is confirmed by an output where an output was
/// meant, and by an input where an input was; a chosen output must be the default one.
pub proof fn what_confirms_a_change_of_the_sound(
    audio: AudioView,
    nearness: Nearness,
    muted: bool,
    id: String,
)
    ensures
        legacy_confirmation(SystemMutation::AudioMuted(muted), audio, nearness) is Ok <==> exists|
            i: int,
        |
            0 <= i < audio.nodes.len() && (#[trigger] audio.nodes[i]).kind == AudioNodeKind::Output
                && audio.nodes[i].muted == muted,
        legacy_confirmation(SystemMutation::AudioMicrophoneMuted(muted), audio, nearness) is Ok
            <==> exists|i: int|
            0 <= i < audio.nodes.len() && (#[trigger] audio.nodes[i]).kind == AudioNodeKind::Input
                && audio.nodes[i].muted == muted,
        node_identifier(id@) is Ok && legacy_confirmation(
            SystemMutation::AudioOutputDevice(id),
            audio,
            nearness,
        ) is Ok ==> exists|i: int|
            0 <= i < audio.nodes.len() && (#[trigger] audio.nodes[i]).kind == AudioNodeKind::Output
                && audio.nodes[i].is_default && audio.nodes[i].id == node_identifier(id@)->Ok_0,
        legacy_confirmation(SystemMutation::AudioMuted(muted), audio, nearness) matches Ok(told)
            ==> told == audio,
{
    let sink = legacy_wanted(SystemMutation::AudioMuted(muted));
    let source = legacy_wanted(SystemMutation::AudioMicrophoneMuted(muted));
    let chosen = legacy_wanted(SystemMutation::AudioOutputDevice(id));
    assert forall|i: int| 0 <= i < audio.nodes.len() implies (node_is(
        #[trigger] audio.nodes[i],
        sink,
        nearness,
    ) <==> audio.nodes[i].kind == AudioNodeKind::Output && audio.nodes[i].muted == muted) by {}
    assert forall|i: int| 0 <= i < audio.nodes.len() implies (node_is(
        #[trigger] audio.nodes[i],
        source,
        nearness,
    ) <==> audio.nodes[i].kind == AudioNodeKind::Input && audio.nodes[i].muted == muted) by {}
    if legacy_confirmation(SystemMutation::AudioOutputDevice(id), audio, nearness) is Ok {
        let i = choose|i: int|
            0 <= i < audio.nodes.len() && node_is(#[trigger] audio.nodes[i], chosen, nearness);
        assert(audio.nodes[i].is_default);
    }
}

} // verus!

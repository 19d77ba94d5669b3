//! Bluetooth, read and changed with `bluetoothctl`.

use vstd::prelude::*;
use vstd::utf8::encode_utf8;

use crate::command::{
    came_of, command_line, command_output, grants_all, leads, limited, may_change, output_of, run,
    run_once, run_view, runs_of, succeeded, CommandSpec, CommandView, Run, RunView, Runs,
};
use crate::error::{fault_of, invalid, malformed, seen, ErrorKind, Fault, SessionError};
use crate::rows::{
    folded, folded_step, read_by, read_text, reading, text_in, views, views_of_push, Readings,
};
use crate::text::{
    after_prefix, byte_len, chars_of, copy_chars, find_char, first_index, first_index_facts,
    is_blank, is_text, lines, lines_of, pieces, same_chars, same_text, string_of, strip_prefix,
    text_bytes, trim, trim_chars, trim_is_empty_iff_blank, upper,
};

use super::domain::{BluetoothDevice, BluetoothSnapshot, StableId};
use super::network::{
    canonical, canonical_mac, device_address, device_identifier, is_mac, mac_id, mac_in, on_off,
    on_or_off, MUTATION_TIMEOUT,
};

verus! {

pub enum BluetoothCommand {
    SetPowered { powered: bool },
    Scan,
    Pair { device_id: StableId },
    Connect { device_id: StableId },
    Disconnect { device_id: StableId },
}

/// The identifier of a device.
pub open spec fn bluetooth_identifier(mac: Seq<char>) -> Result<Seq<char>, Fault> {
    device_identifier("bluetooth:"@, mac)
}

pub fn device_id(mac: &[char]) -> (id: Result<String, SessionError>)
    ensures
        seen(id) == bluetooth_identifier(mac@),
{
    mac_id("bluetooth:", mac)
}

/// The address in the identifier of a device.
pub open spec fn bluetooth_address(id: Seq<char>) -> Result<Seq<char>, Fault> {
    device_address("bluetooth:"@, id, "invalid Bluetooth device ID"@)
}

fn decode(id: &StableId) -> (mac: Result<String, SessionError>)
    ensures
        seen(mac) == bluetooth_address(id.0@),
{
    mac_in("bluetooth:", id.as_str(), "invalid Bluetooth device ID")
}

/// The identifier of a device leads back to its address.
pub proof fn bluetooth_identifiers_lead_back(mac: Seq<char>)
    requires
        super::network::is_mac(mac),
    ensures
        bluetooth_identifier(mac) is Ok,
        bluetooth_address(bluetooth_identifier(mac)->Ok_0) == canonical(mac),
{
    super::network::device_identifiers_lead_back(
        "bluetooth:"@,
        mac,
        "invalid Bluetooth device ID"@,
    );
}

pub open spec fn device_line(verb: Seq<char>, id: Seq<char>) -> Result<CommandView, Fault> {
    match bluetooth_address(id) {
        Ok(mac) => Ok(limited("bluetoothctl"@, seq![verb, mac], MUTATION_TIMEOUT)),
        Err(fault) => Err(fault),
    }
}

fn device_command(verb: &str, id: &StableId) -> (spec: Result<CommandSpec, SessionError>)
    ensures
        seen(spec) == device_line(verb@, id.0@),
{
    match decode(id) {
        Ok(mac) => {
            let spec = CommandSpec::new("bluetoothctl").within(MUTATION_TIMEOUT).arg(verb).arg(
                mac.as_str(),
            );
            assert(spec@.args =~= seq![verb@, mac@]);
            Ok(spec)
        },
        Err(error) => Err(error),
    }
}

/// The command line that makes a change.
pub open spec fn mutation_line(command: BluetoothCommand) -> Result<CommandView, Fault> {
    match command {
        BluetoothCommand::SetPowered { powered } => Ok(
            limited("bluetoothctl"@, seq!["power"@, on_or_off(powered)], MUTATION_TIMEOUT),
        ),
        BluetoothCommand::Scan => Ok(
            limited("bluetoothctl"@, seq!["scan"@, "on"@], MUTATION_TIMEOUT),
        ),
        BluetoothCommand::Pair { device_id } => device_line("pair"@, device_id.0@),
        BluetoothCommand::Connect { device_id } => device_line("connect"@, device_id.0@),
        BluetoothCommand::Disconnect { device_id } => device_line("disconnect"@, device_id.0@),
    }
}

pub fn mutation_spec(command: &BluetoothCommand) -> (spec: Result<CommandSpec, SessionError>)
    ensures
        seen(spec) == mutation_line(*command),
{
    match command {
        BluetoothCommand::SetPowered { powered } => {
            let spec = CommandSpec::new("bluetoothctl").within(MUTATION_TIMEOUT).arg("power").arg(
                on_off(*powered),
            );
            assert(spec@.args =~= seq!["power"@, on_or_off(*powered)]);
            Ok(spec)
        },
        BluetoothCommand::Scan => {
            let spec = CommandSpec::new("bluetoothctl").within(MUTATION_TIMEOUT).arg("scan").arg(
                "on",
            );
            assert(spec@.args =~= seq!["scan"@, "on"@]);
            Ok(spec)
        },
        BluetoothCommand::Pair { device_id } => device_command("pair", device_id),
        BluetoothCommand::Connect { device_id } => device_command("connect", device_id),
        BluetoothCommand::Disconnect { device_id } => device_command("disconnect", device_id),
    }
}

// ---------------------------------------------------------------------------
// Reading
// ---------------------------------------------------------------------------

/// The value of the first line that gives a property.
pub open spec fn property_in(rows: Seq<Seq<char>>, prefix: Seq<char>) -> Option<Seq<char>>
    decreases rows.len(),
{
    if rows.len() == 0 {
        None
    } else {
        match after_prefix(trim(rows[0]), prefix) {
            Some(value) => Some(value),
            None => property_in(rows.skip(1), prefix),
        }
    }
}

/// The value of a property in the output of the program.
pub open spec fn property(text: Seq<char>, name: Seq<char>) -> Option<Seq<char>> {
    property_in(lines(text), name + ": "@)
}

fn find_property(text: &[char], name: &str) -> (value: Option<Vec<char>>)
    ensures
        match value {
            Some(value) => property(text@, name@) == Some(value@),
            None => property(text@, name@) is None,
        },
{
    let mut prefix = name.to_owned();
    prefix.append(": ");
    let rows = lines_of(text);
    let ghost all = lines(text@);
    assert(all.skip(0) =~= all);
    for i in 0..rows.len()
        invariant
            all == pieces(rows@),
            prefix@ == name@ + ": "@,
            property(text@, name@) == property_in(all.skip(i as int), prefix@),
    {
        proof {
            assert(all.skip(i as int)[0] == rows@[i as int]@);
            assert(all.skip(i as int).skip(1) =~= all.skip(i + 1));
        }
        match strip_prefix(trim_chars(rows[i].as_slice()), prefix.as_str()) {
            Some(value) => return Some(copy_chars(value)),
            None => {},
        }
    }
    assert(all.len() == rows@.len());
    None
}

/// A property that is yes or no.
pub open spec fn flag(text: Seq<char>, name: Seq<char>) -> Result<bool, Fault> {
    match property(text, name) {
        None => malformed("Bluetooth property omitted"@),
        Some(value) => if value == "yes"@ {
            Ok(true)
        } else if value == "no"@ {
            Ok(false)
        } else {
            malformed("Bluetooth boolean property is malformed"@)
        },
    }
}

fn read_flag(text: &[char], name: &str) -> (value: Result<bool, SessionError>)
    ensures
        match value {
            Ok(value) => flag(text@, name@) == Ok::<bool, Fault>(value),
            Err(error) => flag(text@, name@) == Err::<bool, Fault>((error.kind, error.message@)),
        },
{
    proof {
        reveal_strlit("yes");
        reveal_strlit("no");
        assert("yes"@.len() != "no"@.len());
    }
    match find_property(text, name) {
        None => invalid("Bluetooth property omitted"),
        Some(value) => if is_text(value.as_slice(), "yes") {
            Ok(true)
        } else if is_text(value.as_slice(), "no") {
            Ok(false)
        } else {
            invalid("Bluetooth boolean property is malformed")
        },
    }
}

/// Whether the controller is powered, and whether it is scanning.
pub open spec fn controller(show: Seq<u8>) -> Result<(bool, bool), Fault> {
    match text_in(show, "Bluetooth output is not UTF-8"@) {
        Err(fault) => Err(fault),
        Ok(show) => match flag(show, "Powered"@) {
            Err(fault) => Err(fault),
            Ok(powered) => match flag(show, "Discovering"@) {
                Err(fault) => Err(fault),
                Ok(scanning) => Ok((powered, scanning)),
            },
        },
    }
}

pub fn controller_state(show: &[u8]) -> (state: Result<(bool, bool), SessionError>)
    ensures
        match state {
            Ok(state) => controller(show@) == Ok::<(bool, bool), Fault>(state),
            Err(error) => controller(show@) == Err::<(bool, bool), Fault>(
                (error.kind, error.message@),
            ),
        },
{
    let show = match read_text(show, "Bluetooth output is not UTF-8") {
        Ok(show) => show,
        Err(error) => return Err(error),
    };
    let powered = match read_flag(show.as_slice(), "Powered") {
        Ok(powered) => powered,
        Err(error) => return Err(error),
    };
    let scanning = match read_flag(show.as_slice(), "Discovering") {
        Ok(scanning) => scanning,
        Err(error) => return Err(error),
    };
    Ok((powered, scanning))
}

/// A device in the list of the program: its address and the name that is given
/// there.
pub struct DeviceRow {
    pub mac: Vec<char>,
    pub name: Vec<char>,
}

pub struct DeviceRowView {
    pub mac: Seq<char>,
    pub name: Seq<char>,
}

impl View for DeviceRow {
    type V = DeviceRowView;

    open spec fn view(&self) -> DeviceRowView {
        DeviceRowView { mac: self.mac@, name: self.name@ }
    }
}

/// The most devices that are probed.
pub const MAX_PROBED_DEVICES: usize = 64;

/// The longest name of a device, in bytes.
pub const MAX_NAME_BYTES: usize = 512;

/// What is before the first space, and what is after it if there is one.
pub open spec fn word(s: Seq<char>) -> (Seq<char>, Option<Seq<char>>) {
    let at = first_index(s, ' ');
    if 0 <= at < s.len() {
        (s.take(at), Some(s.skip(at + 1)))
    } else {
        (s, None)
    }
}

fn split_word(s: &[char]) -> (parts: (Vec<char>, Option<Vec<char>>))
    ensures
        parts.0@ == word(s@).0,
        match parts.1 {
            Some(rest) => word(s@).1 == Some(rest@),
            None => word(s@).1 is None,
        },
{
    proof {
        first_index_facts(s@, ' ');
    }
    let at: usize = find_char(s, ' ');
    if at < s.len() {
        let head = vstd::slice::slice_subrange(s, 0, at);
        let tail = vstd::slice::slice_subrange(s, at + 1, s.len());
        assert(head@ =~= s@.take(at as int));
        assert(tail@ =~= s@.skip(at + 1));
        (copy_chars(head), Some(copy_chars(tail)))
    } else {
        (copy_chars(s), None)
    }
}

pub open spec fn has_mac(found: Seq<DeviceRowView>, mac: Seq<char>) -> bool {
    exists|i: int| 0 <= i < found.len() && (#[trigger] found[i]).mac == mac
}

/// What a row of the list adds.
pub open spec fn with_device(found: Seq<DeviceRowView>, line: Seq<char>) -> Result<
    Seq<DeviceRowView>,
    Fault,
> {
    if is_blank(line) {
        Ok(found)
    } else {
        let (head, rest) = word(line);
        if head != "Device"@ {
            malformed("Bluetooth device row is malformed"@)
        } else if rest is None {
            malformed("Bluetooth MAC omitted"@)
        } else {
            let (address, label) = word(rest->Some_0);
            let name = match label {
                Some(label) => trim(label),
                None => Seq::empty(),
            };
            match canonical(address) {
                Err(fault) => Err(fault),
                Ok(mac) => if has_mac(found, mac) {
                    malformed("duplicate Bluetooth device identifier"@)
                } else if byte_len(name) > MAX_NAME_BYTES {
                    malformed("Bluetooth device name exceeds its bound"@)
                } else if found.len() + 1 > MAX_PROBED_DEVICES {
                    malformed("Bluetooth device probe exceeds its call budget"@)
                } else {
                    Ok(found.push(DeviceRowView { mac, name }))
                },
            }
        }
    }
}

/// The devices in the list of the program.
pub open spec fn device_rows(output: Seq<u8>) -> Result<Seq<DeviceRowView>, Fault> {
    match text_in(output, "Bluetooth output is not UTF-8"@) {
        Err(fault) => Err(fault),
        Ok(text) => folded(
            lines(text),
            Seq::empty(),
            |found: Seq<DeviceRowView>, line: Seq<char>| with_device(found, line),
        ),
    }
}

fn knows_mac(found: &Vec<DeviceRow>, mac: &[char]) -> (known: bool)
    ensures
        known == has_mac(views(found@), mac@),
{
    for i in 0..found.len()
        invariant
            forall|j: int| 0 <= j < i ==> (#[trigger] views(found@)[j]).mac != mac@,
    {
        assert(views(found@)[i as int] == found@[i as int]@);
        if same_chars(found[i].mac.as_slice(), mac) {
            return true;
        }
    }
    false
}

fn take_device(found: Vec<DeviceRow>, line: &[char]) -> (next: Result<
    Vec<DeviceRow>,
    SessionError,
>)
    ensures
        match next {
            Ok(next) => with_device(views(found@), line@) == Ok::<Seq<DeviceRowView>, Fault>(
                views(next@),
            ),
            Err(error) => with_device(views(found@), line@) == Err::<Seq<DeviceRowView>, Fault>(
                (error.kind, error.message@),
            ),
        },
{
    proof {
        trim_is_empty_iff_blank(line@);
    }
    if trim_chars(line).len() == 0 {
        return Ok(found);
    }
    let (head, rest) = split_word(line);
    if !is_text(head.as_slice(), "Device") {
        return invalid("Bluetooth device row is malformed");
    }
    let rest = match rest {
        Some(rest) => rest,
        None => return invalid("Bluetooth MAC omitted"),
    };
    let (address, label) = split_word(rest.as_slice());
    let name: Vec<char> = match label {
        Some(label) => copy_chars(trim_chars(label.as_slice())),
        None => Vec::new(),
    };
    assert(word(rest@).1 is None ==> name@ =~= Seq::empty());
    let mac = match canonical_mac(address.as_slice()) {
        Ok(mac) => mac,
        Err(error) => return Err(error),
    };
    if knows_mac(&found, mac.as_slice()) {
        return invalid("duplicate Bluetooth device identifier");
    }
    if text_bytes(string_of(name.as_slice()).as_str()) > MAX_NAME_BYTES {
        return invalid("Bluetooth device name exceeds its bound");
    }
    assert(views(found@).len() == found@.len());
    if found.len() >= MAX_PROBED_DEVICES {
        return invalid("Bluetooth device probe exceeds its call budget");
    }
    let row = DeviceRow { mac, name };
    let mut next = found;
    proof {
        views_of_push(next@, row);
    }
    next.push(row);
    Ok(next)
}

pub fn parse_device_rows(output: &[u8]) -> (found: Result<Vec<DeviceRow>, SessionError>)
    ensures
        match found {
            Ok(found) => device_rows(output@) == Ok::<Seq<DeviceRowView>, Fault>(views(found@)),
            Err(error) => device_rows(output@) == Err::<Seq<DeviceRowView>, Fault>(
                (error.kind, error.message@),
            ),
        },
{
    let text = match read_text(output, "Bluetooth output is not UTF-8") {
        Ok(text) => text,
        Err(error) => return Err(error),
    };
    let rows = lines_of(text.as_slice());
    let ghost all = lines(text@);
    let ghost step = |found: Seq<DeviceRowView>, line: Seq<char>| with_device(found, line);
    let mut found: Vec<DeviceRow> = Vec::new();
    assert(views(found@) =~= Seq::empty());
    assert(all.skip(0) =~= all);
    for i in 0..rows.len()
        invariant
            all == pieces(rows@),
            step == (|found: Seq<DeviceRowView>, line: Seq<char>| with_device(found, line)),
            folded(all.skip(i as int), views(found@), step) == device_rows(output@),
    {
        proof {
            folded_step(all, i as int, views(found@), step);
            assert(all[i as int] == rows@[i as int]@);
        }
        found = match take_device(found, rows[i].as_slice()) {
            Ok(next) => next,
            Err(error) => return Err(error),
        };
    }
    assert(all.len() == rows@.len());
    Ok(found)
}

pub struct DeviceView {
    pub id: Seq<char>,
    pub name: Seq<char>,
    pub paired: bool,
    pub connected: bool,
}

impl View for BluetoothDevice {
    type V = DeviceView;

    open spec fn view(&self) -> DeviceView {
        DeviceView {
            id: self.id@,
            name: self.name@,
            paired: self.paired,
            connected: self.connected,
        }
    }
}

pub struct BluetoothView {
    pub powered: bool,
    pub scanning: bool,
    pub devices: Seq<DeviceView>,
}

impl View for BluetoothSnapshot {
    type V = BluetoothView;

    open spec fn view(&self) -> BluetoothView {
        BluetoothView {
            powered: self.powered,
            scanning: self.scanning,
            devices: views(self.devices@),
        }
    }
}

/// The name of a device: its own, or the one in the list.
pub open spec fn device_name(info: Seq<char>, fallback: Seq<char>) -> Seq<char> {
    match property(info, "Name"@) {
        Some(name) => if name.len() > 0 {
            name
        } else {
            fallback
        },
        None => fallback,
    }
}

/// What the details of a device add.
pub open spec fn with_details(
    found: Seq<DeviceView>,
    row: DeviceRowView,
    details: Seq<(Seq<char>, Seq<u8>)>,
) -> Result<Seq<DeviceView>, Fault> {
    match reading(details, row.mac) {
        None => malformed("Bluetooth details omitted"@),
        Some(bytes) => match text_in(bytes, "Bluetooth output is not UTF-8"@) {
            Err(fault) => Err(fault),
            Ok(info) => {
                let name = device_name(info, row.name);
                if name.len() == 0 || byte_len(name) > MAX_NAME_BYTES {
                    malformed("Bluetooth device name is empty or exceeds its bound"@)
                } else {
                    match bluetooth_identifier(row.mac) {
                        Err(fault) => Err(fault),
                        Ok(id) => match flag(info, "Paired"@) {
                            Err(fault) => Err(fault),
                            Ok(paired) => match flag(info, "Connected"@) {
                                Err(fault) => Err(fault),
                                Ok(connected) => Ok(
                                    found.push(DeviceView { id, name, paired, connected }),
                                ),
                            },
                        },
                    }
                }
            },
        },
    }
}

fn take_details(found: Vec<BluetoothDevice>, row: &DeviceRow, details: &Readings) -> (next: Result<
    Vec<BluetoothDevice>,
    SessionError,
>)
    ensures
        match next {
            Ok(next) => with_details(views(found@), row@, details@) == Ok::<
                Seq<DeviceView>,
                Fault,
            >(views(next@)),
            Err(error) => with_details(views(found@), row@, details@) == Err::<
                Seq<DeviceView>,
                Fault,
            >((error.kind, error.message@)),
        },
{
    let info = match details.get(row.mac.as_slice()) {
        Some(info) => info,
        None => return invalid("Bluetooth details omitted"),
    };
    let info = match read_text(info.as_slice(), "Bluetooth output is not UTF-8") {
        Ok(info) => info,
        Err(error) => return Err(error),
    };
    let name = match find_property(info.as_slice(), "Name") {
        Some(name) => if name.len() > 0 {
            string_of(name.as_slice())
        } else {
            string_of(row.name.as_slice())
        },
        None => string_of(row.name.as_slice()),
    };
    if chars_of(name.as_str()).len() == 0 || text_bytes(name.as_str()) > MAX_NAME_BYTES {
        return invalid("Bluetooth device name is empty or exceeds its bound");
    }
    let id = match device_id(row.mac.as_slice()) {
        Ok(id) => id,
        Err(error) => return Err(error),
    };
    let paired = match read_flag(info.as_slice(), "Paired") {
        Ok(paired) => paired,
        Err(error) => return Err(error),
    };
    let connected = match read_flag(info.as_slice(), "Connected") {
        Ok(connected) => connected,
        Err(error) => return Err(error),
    };
    let device = BluetoothDevice { id, name, paired, connected };
    let mut next = found;
    proof {
        views_of_push(next@, device);
    }
    next.push(device);
    Ok(next)
}

/// The devices of a list with their details.
pub open spec fn detailed(
    rows: Seq<DeviceRowView>,
    details: Seq<(Seq<char>, Seq<u8>)>,
) -> Result<Seq<DeviceView>, Fault> {
    folded(
        rows,
        Seq::empty(),
        |found: Seq<DeviceView>, row: DeviceRowView| with_details(found, row, details),
    )
}

/// What the outputs tell of Bluetooth.
pub open spec fn snapshot_in(
    show: Seq<u8>,
    devices: Seq<u8>,
    details: Seq<(Seq<char>, Seq<u8>)>,
) -> Result<BluetoothView, Fault> {
    match controller(show) {
        Err(fault) => Err(fault),
        Ok((powered, scanning)) => match device_rows(devices) {
            Err(fault) => Err(fault),
            Ok(rows) => match detailed(rows, details) {
                Err(fault) => Err(fault),
                Ok(devices) => Ok(BluetoothView { powered, scanning, devices }),
            },
        },
    }
}

pub fn parse_snapshot(show: &[u8], devices: &[u8], details: &Readings) -> (snapshot: Result<
    BluetoothSnapshot,
    SessionError,
>)
    ensures
        seen(snapshot) == snapshot_in(show@, devices@, details@),
{
    let (powered, scanning) = match controller_state(show) {
        Ok(state) => state,
        Err(error) => return Err(error),
    };
    let rows = match parse_device_rows(devices) {
        Ok(rows) => rows,
        Err(error) => return Err(error),
    };
    let ghost all = views(rows@);
    let ghost step = |found: Seq<DeviceView>, row: DeviceRowView|
        with_details(found, row, details@);
    let mut found: Vec<BluetoothDevice> = Vec::new();
    assert(views(found@) =~= Seq::empty());
    assert(all.skip(0) =~= all);
    for i in 0..rows.len()
        invariant
            all == views(rows@),
            step == (|found: Seq<DeviceView>, row: DeviceRowView|
                with_details(found, row, details@)),
            controller(show@) == Ok::<(bool, bool), Fault>((powered, scanning)),
            device_rows(devices@) == Ok::<Seq<DeviceRowView>, Fault>(all),
            folded(all.skip(i as int), views(found@), step) == detailed(all, details@),
    {
        proof {
            folded_step(all, i as int, views(found@), step);
            assert(all[i as int] == rows@[i as int]@);
        }
        found = match take_details(found, &rows[i], details) {
            Ok(next) => next,
            Err(error) => return Err(error),
        };
    }
    assert(all.len() == rows@.len());
    Ok(BluetoothSnapshot { powered, scanning, devices: found })
}

// ---------------------------------------------------------------------------
// Probing and changing
// ---------------------------------------------------------------------------

/// The question whether the Bluetooth service runs. Asking does not start it.
pub open spec fn owner_line() -> CommandView {
    command_line(
        "busctl"@,
        seq![
            "--system"@,
            "--timeout=1"@,
            "call"@,
            "org.freedesktop.DBus"@,
            "/org/freedesktop/DBus"@,
            "org.freedesktop.DBus"@,
            "NameHasOwner"@,
            "s"@,
            "org.bluez"@,
        ],
    )
}

pub open spec fn show_line() -> CommandView {
    command_line("bluetoothctl"@, seq!["show"@])
}

pub open spec fn devices_line() -> CommandView {
    command_line("bluetoothctl"@, seq!["devices"@])
}

pub open spec fn info_line(mac: Seq<char>) -> CommandView {
    command_line("bluetoothctl"@, seq!["info"@, mac])
}

/// Whether the service runs.
pub open spec fn service_runs(owner: Seq<u8>) -> Result<(), Fault> {
    match text_in(owner, "Bluetooth output is not UTF-8"@) {
        Err(fault) => Err(fault),
        Ok(owner) => if trim(owner) == "b false"@ {
            Err((ErrorKind::NotConnected, "Bluetooth service is unavailable"@))
        } else if trim(owner) == "b true"@ {
            Ok(())
        } else {
            malformed("D-Bus owner reply is malformed"@)
        },
    }
}

fn check_owner(owner: &[u8]) -> (checked: Result<(), SessionError>)
    ensures
        crate::error::told(checked) == service_runs(owner@),
{
    let owner = match read_text(owner, "Bluetooth output is not UTF-8") {
        Ok(owner) => owner,
        Err(error) => return Err(error),
    };
    let reply = trim_chars(owner.as_slice());
    if is_text(reply, "b false") {
        return Err(
            SessionError::new(ErrorKind::NotConnected, "Bluetooth service is unavailable"),
        );
    }
    if is_text(reply, "b true") {
        return Ok(());
    }
    invalid("D-Bus owner reply is malformed")
}

/// What is shown of the controller. The program says in so many words that there
/// is none; every other failure stays one.
pub open spec fn shown(run: RunView) -> Result<Seq<u8>, Fault> {
    if run is Ok && run->Ok_0.status == 1 && run->Ok_0.stdout == encode_utf8(
        "No default controller available\n"@,
    ) {
        Err((ErrorKind::NotConnected, "no Bluetooth controller is available"@))
    } else {
        output_of(run)
    }
}

fn same_bytes(left: &[u8], right: &[u8]) -> (same: bool)
    ensures
        same == (left@ == right@),
{
    if left.len() != right.len() {
        return false;
    }
    for i in 0..left.len()
        invariant
            left@.len() == right@.len(),
            forall|j: int| 0 <= j < i ==> left@[j] == right@[j],
    {
        if left[i] != right[i] {
            return false;
        }
    }
    assert(left@ =~= right@);
    true
}

fn shown_controller(run: Run) -> (output: Result<Vec<u8>, SessionError>)
    ensures
        seen(output) == shown(run_view(run)),
{
    let none = match &run {
        Ok(output) => output.status == 1 && same_bytes(
            output.stdout.as_slice(),
            "No default controller available\n".as_bytes(),
        ),
        Err(_) => false,
    };
    if none {
        return Err(
            SessionError::new(ErrorKind::NotConnected, "no Bluetooth controller is available"),
        );
    }
    command_output(run)
}

fn owner_command() -> (spec: CommandSpec)
    ensures
        spec@ == owner_line(),
{
    let spec = CommandSpec::new("busctl").arg("--system").arg("--timeout=1").arg("call").arg(
        "org.freedesktop.DBus",
    ).arg("/org/freedesktop/DBus").arg("org.freedesktop.DBus").arg("NameHasOwner").arg("s").arg(
        "org.bluez",
    );
    assert(spec@.args =~= owner_line().args);
    spec
}

/// Whether the details of devices were read.
pub open spec fn details_by(
    runs: Runs,
    rows: Seq<DeviceRowView>,
    details: Result<Seq<(Seq<char>, Seq<u8>)>, Fault>,
) -> bool {
    read_by(
        runs,
        rows,
        |row: DeviceRowView| row.mac,
        |row: DeviceRowView| info_line(row.mac),
        details,
    )
}

/// Whether Bluetooth was read: what came of the programs leads to it.
pub open spec fn snapshot_by(
    runs: Runs,
    snapshot: Result<BluetoothView, Fault>,
) -> bool {
    leads(
        runs,
        owner_line(),
        snapshot,
        |owner: Seq<u8>|
            match service_runs(owner) {
                Err(fault) => snapshot == Err::<BluetoothView, Fault>(fault),
                Ok(()) => exists|run: RunView| #[trigger]
                    runs(show_line(), run) && match shown(run) {
                        Err(fault) => snapshot == Err::<BluetoothView, Fault>(fault),
                        Ok(show) => devices_by(runs, show, snapshot),
                    },
            },
    )
}

/// Whether the devices of a controller that was shown were read.
pub open spec fn devices_by(
    runs: Runs,
    show: Seq<u8>,
    snapshot: Result<BluetoothView, Fault>,
) -> bool {
    match controller(show) {
        Err(fault) => snapshot == Err::<BluetoothView, Fault>(fault),
        Ok(_) => leads(
            runs,
            devices_line(),
            snapshot,
            |devices: Seq<u8>| detailed_by(runs, show, devices, snapshot),
        ),
    }
}

/// Whether the details of the devices that were listed were read.
pub open spec fn detailed_by(
    runs: Runs,
    show: Seq<u8>,
    devices: Seq<u8>,
    snapshot: Result<BluetoothView, Fault>,
) -> bool {
    match device_rows(devices) {
        Err(fault) => snapshot == Err::<BluetoothView, Fault>(fault),
        Ok(rows) => exists|details: Result<Seq<(Seq<char>, Seq<u8>)>, Fault>| #[trigger]
            details_by(runs, rows, details) && snapshot == match details {
                Ok(details) => snapshot_in(show, devices, details),
                Err(fault) => Err(fault),
            },
    }
}

/// The programs that read Bluetooth.
pub open spec fn reading_lines() -> spec_fn(CommandView) -> bool {
    |line: CommandView|
        {
            ||| line == owner_line()
            ||| line == show_line()
            ||| line == devices_line()
            ||| exists|mac: Seq<char>| line == #[trigger] info_line(mac)
        }
}

#[verifier::loop_isolation(false)]
fn read_details<R: Fn(&CommandSpec) -> Run>(runner: &R, rows: &Vec<DeviceRow>) -> (details: Result<
    Readings,
    SessionError,
>)
    requires
        grants_all(*runner, reading_lines()),
    ensures
        details_by(runs_of(*runner), views(rows@), seen(details)),
{
    let ghost all = views(rows@);
    let mut details = Readings::new();
    for i in 0..rows.len()
        invariant
            details@.len() == i,
            forall|j: int|
                0 <= j < i ==> (#[trigger] details@[j]).0 == all[j].mac && came_of(
                    runs_of(*runner),
                    info_line(all[j].mac),
                    Ok::<Seq<u8>, Fault>(details@[j].1),
                ),
    {
        let mac = string_of(rows[i].mac.as_slice());
        let spec = CommandSpec::new("bluetoothctl").arg("info").arg(mac.as_str());
        assert(spec@.args =~= seq!["info"@, mac@]);
        assert(all[i as int].mac == mac@);
        let output = run(runner, spec);
        match output {
            Ok(output) => details.insert(mac, output),
            Err(error) => {
                assert forall|j: int| 0 <= j < i implies succeeded(
                    runs_of(*runner),
                    info_line((#[trigger] all[j]).mac),
                ) by {
                    assert(details@[j].0 == all[j].mac);
                }
                assert(came_of(
                    runs_of(*runner),
                    info_line(all[i as int].mac),
                    Err::<Seq<u8>, Fault>(fault_of(error)),
                ));
                return Err(error);
            },
        }
    }
    assert(all.len() == rows@.len());
    Ok(details)
}

/// Reads Bluetooth.
pub fn probe<R: Fn(&CommandSpec) -> Run>(runner: &R) -> (snapshot: Result<
    BluetoothSnapshot,
    SessionError,
>)
    requires
        grants_all(*runner, reading_lines()),
    ensures
        snapshot_by(runs_of(*runner), seen(snapshot)),
{
    let owner = match run(runner, owner_command()) {
        Ok(output) => output,
        Err(error) => return Err(error),
    };
    match check_owner(owner.as_slice()) {
        Ok(()) => {},
        Err(error) => return Err(error),
    }
    let spec = CommandSpec::new("bluetoothctl").arg("show");
    assert(spec@.args =~= seq!["show"@]);
    let result = runner(&spec);
    proof {
        assert(spec@ == show_line());
        assert(runs_of(*runner)(show_line(), run_view(result)));
    }
    let show = match shown_controller(result) {
        Ok(show) => show,
        Err(error) => return Err(error),
    };
    match controller_state(show.as_slice()) {
        Ok(_) => {},
        Err(error) => return Err(error),
    }
    let spec = CommandSpec::new("bluetoothctl").arg("devices");
    assert(spec@.args =~= seq!["devices"@]);
    let devices = match run(runner, spec) {
        Ok(devices) => devices,
        Err(error) => return Err(error),
    };
    let rows = match parse_device_rows(devices.as_slice()) {
        Ok(rows) => rows,
        Err(error) => return Err(error),
    };
    let details = match read_details(runner, &rows) {
        Ok(details) => details,
        Err(error) => {
            assert(details_by(
                runs_of(*runner),
                views(rows@),
                Err::<Seq<(Seq<char>, Seq<u8>)>, Fault>(fault_of(error)),
            ));
            assert(came_of(runs_of(*runner), devices_line(), Ok::<Seq<u8>, Fault>(devices@)));
            assert(detailed_by(
                runs_of(*runner),
                show@,
                devices@,
                Err::<BluetoothView, Fault>(fault_of(error)),
            ));
            assert(devices_by(runs_of(*runner), show@, Err::<BluetoothView, Fault>(fault_of(error))));
            return Err(error);
        },
    };
    parse_snapshot(show.as_slice(), devices.as_slice(), &details)
}

/// Whether Bluetooth is as a change would leave it.
pub open spec fn confirmed(command: BluetoothCommand, snapshot: BluetoothView) -> bool {
    match command {
        BluetoothCommand::SetPowered { powered } => snapshot.powered == powered,
        BluetoothCommand::Scan => snapshot.scanning,
        BluetoothCommand::Pair { device_id } => exists|i: int|
            0 <= i < snapshot.devices.len() && (#[trigger] snapshot.devices[i]).id == device_id.0@
                && snapshot.devices[i].paired,
        BluetoothCommand::Connect { device_id } => exists|i: int|
            0 <= i < snapshot.devices.len() && (#[trigger] snapshot.devices[i]).id == device_id.0@
                && snapshot.devices[i].connected,
        BluetoothCommand::Disconnect { device_id } => exists|i: int|
            0 <= i < snapshot.devices.len() && (#[trigger] snapshot.devices[i]).id == device_id.0@
                && !snapshot.devices[i].connected,
    }
}

/// Whether some device has an identifier and is, where asked, paired or not and
/// connected or not.
fn any_device(
    devices: &Vec<BluetoothDevice>,
    id: &str,
    paired: Option<bool>,
    connected: Option<bool>,
) -> (found: bool)
    ensures
        found == exists|i: int|
            0 <= i < views(devices@).len() && (#[trigger] views(devices@)[i]).id == id@ && (
            paired is None || views(devices@)[i].paired == paired->Some_0) && (connected is None
                || views(devices@)[i].connected == connected->Some_0),
{
    for i in 0..devices.len()
        invariant
            forall|j: int|
                0 <= j < i ==> !((#[trigger] views(devices@)[j]).id == id@ && (paired is None
                    || views(devices@)[j].paired == paired->Some_0) && (connected is None
                    || views(devices@)[j].connected == connected->Some_0)),
    {
        let device = &devices[i];
        assert(views(devices@)[i as int] == device@);
        let pairing = match paired {
            Some(value) => device.paired == value,
            None => true,
        };
        let connection = match connected {
            Some(value) => device.connected == value,
            None => true,
        };
        if same_text(device.id.as_str(), id) && pairing && connection {
            return true;
        }
    }
    false
}

/// Bluetooth after a change, if it is as the change would leave it.
pub open spec fn confirmation(command: BluetoothCommand, snapshot: BluetoothView) -> Result<
    BluetoothView,
    Fault,
> {
    if confirmed(command, snapshot) {
        Ok(snapshot)
    } else {
        Err((ErrorKind::Other, "Bluetooth readback did not confirm the requested state"@))
    }
}

/// Compares Bluetooth after a change with what the change would leave.
pub fn confirm(command: &BluetoothCommand, snapshot: BluetoothSnapshot) -> (result: Result<
    BluetoothSnapshot,
    SessionError,
>)
    ensures
        seen(result) == confirmation(*command, snapshot@),
{
    let devices = &snapshot.devices;
    let ghost known = snapshot@.devices;
    assert(known == views(devices@));
    let confirmed = match command {
        BluetoothCommand::SetPowered { powered } => snapshot.powered == *powered,
        BluetoothCommand::Scan => snapshot.scanning,
        BluetoothCommand::Pair { device_id } => any_device(
            devices,
            device_id.as_str(),
            Some(true),
            None,
        ),
        BluetoothCommand::Connect { device_id } => any_device(
            devices,
            device_id.as_str(),
            None,
            Some(true),
        ),
        BluetoothCommand::Disconnect { device_id } => any_device(
            devices,
            device_id.as_str(),
            None,
            Some(false),
        ),
    };
    assert(confirmed == self::confirmed(*command, snapshot@));
    if !confirmed {
        return Err(
            SessionError::new(
                ErrorKind::Other,
                "Bluetooth readback did not confirm the requested state",
            ),
        );
    }
    Ok(snapshot)
}

/// Whether a change was made: the program that makes it and the programs that then
/// read Bluetooth lead to the result.
pub open spec fn mutation_by(
    changes: Runs,
    runs: Runs,
    command: BluetoothCommand,
    result: Result<BluetoothView, Fault>,
) -> bool {
    match mutation_line(command) {
        Err(fault) => result == Err::<BluetoothView, Fault>(fault),
        Ok(line) => leads(
            changes,
            line,
            result,
            |_output: Seq<u8>|
                exists|snapshot: Result<BluetoothView, Fault>| #[trigger]
                    snapshot_by(runs, snapshot) && result == match snapshot {
                        Ok(snapshot) => confirmation(command, snapshot),
                        Err(fault) => Err(fault),
                    },
        ),
    }
}

/// Makes a change, once, and then reads Bluetooth again. The change succeeds only
/// if it is confirmed.
pub fn mutate<C: FnOnce(&CommandSpec) -> Run, R: Fn(&CommandSpec) -> Run>(
    change: C,
    runner: &R,
    command: &BluetoothCommand,
) -> (snapshot: Result<BluetoothSnapshot, SessionError>)
    requires
        may_change(change, *runner, mutation_line(*command), reading_lines()),
    ensures
        mutation_by(runs_of(change), runs_of(*runner), *command, seen(snapshot)),
{
    let spec = match mutation_spec(command) {
        Ok(spec) => spec,
        Err(error) => return Err(error),
    };
    match run_once(change, spec) {
        Ok(_) => {},
        Err(error) => return Err(error),
    }
    let snapshot = match probe(runner) {
        Ok(snapshot) => snapshot,
        Err(error) => return Err(error),
    };
    confirm(command, snapshot)
}

/// A change that succeeds was accepted by the program that makes it, and was
/// confirmed by what the programs that read Bluetooth gave.
pub proof fn a_change_is_confirmed(
    changes: Runs,
    runs: Runs,
    command: BluetoothCommand,
    snapshot: BluetoothView,
)
    requires
        mutation_by(changes, runs, command, Ok::<BluetoothView, Fault>(snapshot)),
    ensures
        mutation_line(command) is Ok,
        succeeded(changes, mutation_line(command)->Ok_0),
        confirmed(command, snapshot),
        snapshot_by(runs, Ok::<BluetoothView, Fault>(snapshot)),
{
    let line = mutation_line(command)->Ok_0;
    let outcome = choose|outcome: Result<Seq<u8>, Fault>| #[trigger]
        came_of(changes, line, outcome) && outcome is Ok;
    assert(came_of(changes, line, Ok::<Seq<u8>, Fault>(outcome->Ok_0)));
}

/// Each change is made by its own words: what is switched on is told `on` and what is
/// switched off is told `off`, and a device is paired, connected or disconnected by the
/// address that its identifier stands for.
pub proof fn changes_are_made_in_these_words(device_id: StableId, mac: Seq<char>)
    ensures
        mutation_line(BluetoothCommand::SetPowered { powered: true }) == Ok::<CommandView, Fault>(
            CommandView {
                program: "bluetoothctl"@,
                args: seq!["power"@, "on"@],
                timeout: Some(10_000),
            },
        ),
        mutation_line(BluetoothCommand::SetPowered { powered: false }) == Ok::<CommandView, Fault>(
            CommandView {
                program: "bluetoothctl"@,
                args: seq!["power"@, "off"@],
                timeout: Some(10_000),
            },
        ),
        mutation_line(BluetoothCommand::Scan) == Ok::<CommandView, Fault>(
            CommandView {
                program: "bluetoothctl"@,
                args: seq!["scan"@, "on"@],
                timeout: Some(10_000),
            },
        ),
        is_mac(mac) && bluetooth_identifier(mac) == Ok::<Seq<char>, Fault>(device_id.0@) ==> {
            &&& mutation_line(BluetoothCommand::Pair { device_id }) == Ok::<CommandView, Fault>(
                CommandView {
                    program: "bluetoothctl"@,
                    args: seq!["pair"@, upper(mac)],
                    timeout: Some(10_000),
                },
            )
            &&& mutation_line(BluetoothCommand::Connect { device_id }) == Ok::<CommandView, Fault>(
                CommandView {
                    program: "bluetoothctl"@,
                    args: seq!["connect"@, upper(mac)],
                    timeout: Some(10_000),
                },
            )
            &&& mutation_line(BluetoothCommand::Disconnect { device_id }) == Ok::<
                CommandView,
                Fault,
            >(
                CommandView {
                    program: "bluetoothctl"@,
                    args: seq!["disconnect"@, upper(mac)],
                    timeout: Some(10_000),
                },
            )
        },
{
    if is_mac(mac) {
        bluetooth_identifiers_lead_back(mac);
    }
}

/// What confirms a change: the controller is as it was asked to be, and the device that
/// was meant is paired, connected or no longer connected.
pub proof fn changes_are_confirmed_by_what_was_asked(
    powered: bool,
    device_id: StableId,
    snapshot: BluetoothView,
    at: int,
)
    ensures
        confirmed(BluetoothCommand::SetPowered { powered }, snapshot) <==> snapshot.powered
            == powered,
        confirmed(BluetoothCommand::Scan, snapshot) <==> snapshot.scanning,
        0 <= at < snapshot.devices.len() && snapshot.devices[at].id == device_id.0@ ==> {
            &&& snapshot.devices[at].paired ==> confirmed(
                BluetoothCommand::Pair { device_id },
                snapshot,
            )
            &&& snapshot.devices[at].connected ==> confirmed(
                BluetoothCommand::Connect { device_id },
                snapshot,
            )
            &&& !snapshot.devices[at].connected ==> confirmed(
                BluetoothCommand::Disconnect { device_id },
                snapshot,
            )
        },
        snapshot.devices.len() == 0 ==> !confirmed(BluetoothCommand::Pair { device_id }, snapshot)
            && !confirmed(BluetoothCommand::Connect { device_id }, snapshot) && !confirmed(
            BluetoothCommand::Disconnect { device_id },
            snapshot,
        ),
        snapshot.devices.len() == 1 && !snapshot.devices[0].paired ==> !confirmed(
            BluetoothCommand::Pair { device_id },
            snapshot,
        ),
        snapshot.devices.len() == 1 && snapshot.devices[0].connected ==> !confirmed(
            BluetoothCommand::Disconnect { device_id },
            snapshot,
        ),
        snapshot.devices.len() == 1 && !snapshot.devices[0].connected ==> !confirmed(
            BluetoothCommand::Connect { device_id },
            snapshot,
        ),
{
}

/// The controller is powered where it says `Powered: yes`, scanning where it says
/// `Discovering: yes`, and not so where it says `no`.
pub proof fn the_controller_is_read_as_it_is_told(show: Seq<u8>, powered: bool, scanning: bool)
    requires
        controller(show) == Ok::<(bool, bool), Fault>((powered, scanning)),
    ensures
        property(vstd::utf8::decode_utf8(show), "Powered"@) == Some(
            if powered {
                "yes"@
            } else {
                "no"@
            },
        ),
        property(vstd::utf8::decode_utf8(show), "Discovering"@) == Some(
            if scanning {
                "yes"@
            } else {
                "no"@
            },
        ),
{
}

/// A device is paired where its details say `Paired: yes` and connected where they say
/// `Connected: yes`, it has its own name where it has one, and the others stay.
pub proof fn devices_are_read_as_they_are_told(
    found: Seq<DeviceView>,
    row: DeviceRowView,
    details: Seq<(Seq<char>, Seq<u8>)>,
    next: Seq<DeviceView>,
)
    requires
        with_details(found, row, details) == Ok::<Seq<DeviceView>, Fault>(next),
    ensures
        next.len() == found.len() + 1,
        next.drop_last() == found,
        ({
            let info = vstd::utf8::decode_utf8(reading(details, row.mac)->Some_0);
            let device = next.last();
            &&& property(info, "Paired"@) == Some(
                if device.paired {
                    "yes"@
                } else {
                    "no"@
                },
            )
            &&& property(info, "Connected"@) == Some(
                if device.connected {
                    "yes"@
                } else {
                    "no"@
                },
            )
            &&& device.name == if property(info, "Name"@) is Some && property(
                info,
                "Name"@,
            )->Some_0.len() > 0 {
                property(info, "Name"@)->Some_0
            } else {
                row.name
            }
            &&& bluetooth_identifier(row.mac) == Ok::<Seq<char>, Fault>(device.id)
        }),
{
    assert(next.drop_last() =~= found);
}

/// The value of a property is what follows its name and a colon on the first line that
/// begins with them, whatever stands around it.
pub proof fn a_property_follows_its_name(rows: Seq<Seq<char>>, name: Seq<char>, value: Seq<char>)
    requires
        rows.len() > 0,
        trim(rows[0]) == name + ": "@ + value,
    ensures
        property_in(rows, name + ": "@) == Some(value),
{
    let prefix = name + ": "@;
    assert(trim(rows[0]).take(prefix.len() as int) =~= prefix);
    assert(trim(rows[0]).skip(prefix.len() as int) =~= value);
}

} // verus!

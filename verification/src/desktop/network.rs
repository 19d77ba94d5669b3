//! The network, read and changed with `nmcli`.

use vstd::prelude::*;

use crate::command::{
    came_of, command_line, grants_all, leads, limited, may_change, run, run_once, runs_of,
    succeeded, CommandSpec, CommandView, Run, Runs,
};
use crate::error::{
    invalid, invalid_input, malformed, refused, seen, ErrorKind, Fault, SessionError,
};
use crate::ids::{parse_uuid, uuid_hyphenated, uuid_text, uuid_value};
use crate::rows::{folded, folded_step, read_text, text_in, views, views_of_push};
use crate::text::{
    after_prefix, chars_of, contains_text, decimal, has_part, hex_digit_char, is_hex_digit,
    is_text, lines, lines_of, parse_u64, pieces, prefixed, replace_char, replaced, same_text,
    string_of, strip_prefix, trim, trim_chars, unsigned_value, upper, upper_chars,
};

use super::domain::{
    NetworkAccessPoint, NetworkConnection, NetworkConnectionKind, NetworkSnapshot, StableId,
};

verus! {

// ---------------------------------------------------------------------------
// Identifiers
// ---------------------------------------------------------------------------

/// Whether a text is a hardware address: six pairs of hexadecimal digits,
/// separated by colons.
pub open spec fn is_mac(s: Seq<char>) -> bool {
    &&& s.len() == 17
    &&& forall|i: int|
        0 <= i < 17 ==> if i % 3 == 2 {
            #[trigger] s[i] == ':'
        } else {
            is_hex_digit(s[i])
        }
}

/// The canonical form of a hardware address is in upper case.
pub open spec fn canonical(s: Seq<char>) -> Result<Seq<char>, Fault> {
    if is_mac(s) {
        Ok(upper(s))
    } else {
        refused("invalid hardware address"@)
    }
}

pub fn canonical_mac(value: &[char]) -> (mac: Result<Vec<char>, SessionError>)
    ensures
        seen(mac) == canonical(value@),
{
    if value.len() != 17 {
        return invalid_input("invalid hardware address");
    }
    for i in 0..17usize
        invariant
            value@.len() == 17,
            forall|j: int|
                0 <= j < i ==> if j % 3 == 2 {
                    #[trigger] value@[j] == ':'
                } else {
                    is_hex_digit(value@[j])
                },
    {
        let c: char = value[i];
        let fits = if i % 3 == 2 {
            c == ':'
        } else {
            hex_digit_char(c)
        };
        if !fits {
            assert(value@[i as int] == c);
            return invalid_input("invalid hardware address");
        }
    }
    Ok(upper_chars(value))
}

/// The identifier of a device: a prefix and the address with dashes.
pub open spec fn device_identifier(prefix: Seq<char>, mac: Seq<char>) -> Result<Seq<char>, Fault> {
    match canonical(mac) {
        Ok(mac) => Ok(prefix + replaced(mac, ':', '-')),
        Err(fault) => Err(fault),
    }
}

pub fn mac_id(prefix: &str, mac: &[char]) -> (id: Result<String, SessionError>)
    ensures
        seen(id) == device_identifier(prefix@, mac@),
{
    match canonical_mac(mac) {
        Ok(mac) => Ok(prefixed(prefix, replace_char(mac.as_slice(), ':', '-').as_slice())),
        Err(error) => Err(error),
    }
}

/// The address in the identifier of a device.
pub open spec fn device_address(
    prefix: Seq<char>,
    id: Seq<char>,
    message: Seq<char>,
) -> Result<Seq<char>, Fault> {
    match after_prefix(id, prefix) {
        Some(encoded) => canonical(replaced(encoded, '-', ':')),
        None => refused(message),
    }
}

pub fn mac_in(prefix: &str, id: &str, message: &str) -> (mac: Result<String, SessionError>)
    ensures
        seen(mac) == device_address(prefix@, id@, message@),
{
    let letters = chars_of(id);
    match strip_prefix(letters.as_slice(), prefix) {
        Some(encoded) => match canonical_mac(replace_char(encoded, '-', ':').as_slice()) {
            Ok(mac) => Ok(string_of(mac.as_slice())),
            Err(error) => Err(error),
        },
        None => invalid_input(message),
    }
}

proof fn upper_keeps_mac(s: Seq<char>)
    requires
        is_mac(s),
    ensures
        is_mac(upper(s)),
        upper(upper(s)) == upper(s),
        replaced(replaced(upper(s), ':', '-'), '-', ':') == upper(s),
{
    let u = upper(s);
    assert forall|i: int| 0 <= i < 17 implies if i % 3 == 2 {
        #[trigger] u[i] == ':'
    } else {
        is_hex_digit(u[i])
    } by {
        assert(s[i] == s[i]);
    }
    assert forall|i: int| 0 <= i < 17 implies #[trigger] upper(u)[i] == u[i] by {
        assert(s[i] == s[i]);
    }
    assert(upper(u) =~= u);
    let back = replaced(replaced(u, ':', '-'), '-', ':');
    assert forall|i: int| 0 <= i < 17 implies #[trigger] back[i] == u[i] by {
        assert(s[i] == s[i]);
    }
    assert(back =~= u);
}

/// The identifier of a device leads back to its address.
pub proof fn device_identifiers_lead_back(prefix: Seq<char>, mac: Seq<char>, message: Seq<char>)
    requires
        is_mac(mac),
    ensures
        device_identifier(prefix, mac) is Ok,
        device_address(prefix, device_identifier(prefix, mac)->Ok_0, message) == canonical(mac),
{
    upper_keeps_mac(mac);
    let id = device_identifier(prefix, mac)->Ok_0;
    assert(id.take(prefix.len() as int) =~= prefix);
    assert(id.skip(prefix.len() as int) =~= replaced(upper(mac), ':', '-'));
}

/// The identifier of an access point.
pub open spec fn access_point_identifier(mac: Seq<char>) -> Result<Seq<char>, Fault> {
    device_identifier("wifi-ap:"@, mac)
}

pub fn access_point_id(mac: &[char]) -> (id: Result<String, SessionError>)
    ensures
        seen(id) == access_point_identifier(mac@),
{
    mac_id("wifi-ap:", mac)
}

/// The identifier of a connection: a prefix and its canonical UUID.
pub open spec fn connection_identifier(uuid: Seq<char>) -> Result<Seq<char>, Fault> {
    match uuid_value(uuid) {
        None => refused("invalid connection UUID"@),
        Some(value) => if uuid_hyphenated(value) != uuid {
            refused("connection UUID is not canonical"@)
        } else {
            Ok("nm-connection:"@ + uuid)
        },
    }
}

pub fn connection_id(uuid: &[char]) -> (id: Result<String, SessionError>)
    ensures
        seen(id) == connection_identifier(uuid@),
{
    let given = string_of(uuid);
    match parse_uuid(given.as_str()) {
        None => invalid_input("invalid connection UUID"),
        Some(value) => {
            if !same_text(uuid_text(value).as_str(), given.as_str()) {
                return invalid_input("connection UUID is not canonical");
            }
            Ok(prefixed("nm-connection:", uuid))
        },
    }
}

/// The UUID in the identifier of a connection.
pub open spec fn connection_uuid(id: Seq<char>) -> Result<Seq<char>, Fault> {
    match after_prefix(id, "nm-connection:"@) {
        None => refused("invalid connection ID"@),
        Some(value) => match connection_identifier(value) {
            Ok(_) => Ok(value),
            Err(fault) => Err(fault),
        },
    }
}

fn decode_uuid(id: &StableId) -> (uuid: Result<String, SessionError>)
    ensures
        seen(uuid) == connection_uuid(id.0@),
{
    let letters = chars_of(id.as_str());
    match strip_prefix(letters.as_slice(), "nm-connection:") {
        None => invalid_input("invalid connection ID"),
        Some(value) => match connection_id(value) {
            Ok(_) => Ok(string_of(value)),
            Err(error) => Err(error),
        },
    }
}

/// The identifier of a connection leads back to its UUID.
pub proof fn connection_identifiers_lead_back(uuid: Seq<char>)
    requires
        connection_identifier(uuid) is Ok,
    ensures
        connection_uuid(connection_identifier(uuid)->Ok_0) == Ok::<Seq<char>, Fault>(uuid),
{
    let id = connection_identifier(uuid)->Ok_0;
    let prefix = "nm-connection:"@;
    assert(id.take(prefix.len() as int) =~= prefix);
    assert(id.skip(prefix.len() as int) =~= uuid);
}

// ---------------------------------------------------------------------------
// Commands
// ---------------------------------------------------------------------------

pub enum NetworkCommand {
    SetWifiEnabled { enabled: bool },
    ScanWifi,
    ConnectWifi { access_point_id: StableId },
    Disconnect { connection_id: StableId },
}

pub open spec fn on_or_off(value: bool) -> Seq<char> {
    if value {
        "on"@
    } else {
        "off"@
    }
}

pub fn on_off(value: bool) -> (text: &'static str)
    ensures
        text@ == on_or_off(value),
{
    if value {
        "on"
    } else {
        "off"
    }
}

/// The longest that a change may take, in milliseconds.
pub const MUTATION_TIMEOUT: u64 = 10_000;

/// The command line that makes a change.
pub open spec fn mutation_line(command: NetworkCommand) -> Result<CommandView, Fault> {
    match command {
        NetworkCommand::SetWifiEnabled { enabled } => Ok(
            limited(
                "nmcli"@,
                seq!["radio"@, "wifi"@, on_or_off(enabled)],
                MUTATION_TIMEOUT,
            ),
        ),
        NetworkCommand::ScanWifi => Ok(
            limited("nmcli"@, seq!["device"@, "wifi"@, "rescan"@], MUTATION_TIMEOUT),
        ),
        NetworkCommand::ConnectWifi { access_point_id } => match device_address(
            "wifi-ap:"@,
            access_point_id.0@,
            "invalid device ID"@,
        ) {
            Ok(mac) => Ok(
                limited(
                    "nmcli"@,
                    seq!["device"@, "wifi"@, "connect"@, mac],
                    MUTATION_TIMEOUT,
                ),
            ),
            Err(fault) => Err(fault),
        },
        NetworkCommand::Disconnect { connection_id } => match connection_uuid(connection_id.0@) {
            Ok(uuid) => Ok(
                limited(
                    "nmcli"@,
                    seq!["connection"@, "down"@, "uuid"@, uuid],
                    MUTATION_TIMEOUT,
                ),
            ),
            Err(fault) => Err(fault),
        },
    }
}

pub fn mutation_spec(command: &NetworkCommand) -> (spec: Result<CommandSpec, SessionError>)
    ensures
        seen(spec) == mutation_line(*command),
        command matches NetworkCommand::SetWifiEnabled { enabled } ==> spec is Ok
            && spec->Ok_0@.args == (if *enabled {
            seq!["radio"@, "wifi"@, "on"@]
        } else {
            seq!["radio"@, "wifi"@, "off"@]
        }),
{
    let base = CommandSpec::new("nmcli").within(MUTATION_TIMEOUT);
    match command {
        NetworkCommand::SetWifiEnabled { enabled } => {
            let spec = base.arg("radio").arg("wifi").arg(on_off(*enabled));
            assert(spec@.args =~= seq!["radio"@, "wifi"@, on_or_off(*enabled)]);
            Ok(spec)
        },
        NetworkCommand::ScanWifi => {
            let spec = base.arg("device").arg("wifi").arg("rescan");
            assert(spec@.args =~= seq!["device"@, "wifi"@, "rescan"@]);
            Ok(spec)
        },
        NetworkCommand::ConnectWifi { access_point_id } => {
            match mac_in("wifi-ap:", access_point_id.as_str(), "invalid device ID") {
                Ok(mac) => {
                    let spec = base.arg("device").arg("wifi").arg("connect").arg(mac.as_str());
                    assert(spec@.args =~= seq!["device"@, "wifi"@, "connect"@, mac@]);
                    Ok(spec)
                },
                Err(error) => Err(error),
            }
        },
        NetworkCommand::Disconnect { connection_id } => match decode_uuid(connection_id) {
            Ok(uuid) => {
                let spec = base.arg("connection").arg("down").arg("uuid").arg(uuid.as_str());
                assert(spec@.args =~= seq!["connection"@, "down"@, "uuid"@, uuid@]);
                Ok(spec)
            },
            Err(error) => Err(error),
        },
    }
}

pub open spec fn radio_line() -> CommandView {
    command_line("nmcli"@, seq!["--terse"@, "--fields"@, "WIFI"@, "general"@])
}

pub open spec fn access_points_line() -> CommandView {
    command_line(
        "nmcli"@,
        seq![
            "--terse"@,
            "--escape"@,
            "yes"@,
            "--fields"@,
            "IN-USE,BSSID,SSID,SIGNAL,SECURITY"@,
            "device"@,
            "wifi"@,
            "list"@,
            "--rescan"@,
            "no"@,
        ],
    )
}

pub open spec fn connections_line() -> CommandView {
    command_line(
        "nmcli"@,
        seq![
            "--terse"@,
            "--escape"@,
            "yes"@,
            "--fields"@,
            "UUID,NAME,TYPE,DEVICE"@,
            "connection"@,
            "show"@,
            "--active"@,
        ],
    )
}

fn radio_command() -> (spec: CommandSpec)
    ensures
        spec@ == radio_line(),
{
    let spec = CommandSpec::new("nmcli").arg("--terse").arg("--fields").arg("WIFI").arg("general");
    assert(spec@.args =~= radio_line().args);
    spec
}

fn access_points_command() -> (spec: CommandSpec)
    ensures
        spec@ == access_points_line(),
{
    let spec = CommandSpec::new("nmcli").arg("--terse").arg("--escape").arg("yes").arg(
        "--fields",
    ).arg("IN-USE,BSSID,SSID,SIGNAL,SECURITY").arg("device").arg("wifi").arg("list").arg(
        "--rescan",
    ).arg("no");
    assert(spec@.args =~= access_points_line().args);
    spec
}

fn connections_command() -> (spec: CommandSpec)
    ensures
        spec@ == connections_line(),
{
    let spec = CommandSpec::new("nmcli").arg("--terse").arg("--escape").arg("yes").arg(
        "--fields",
    ).arg("UUID,NAME,TYPE,DEVICE").arg("connection").arg("show").arg("--active");
    assert(spec@.args =~= connections_line().args);
    spec
}

// ---------------------------------------------------------------------------
// Reading
// ---------------------------------------------------------------------------

/// The fields of a row, separated by colons. A backslash takes the next character
/// as it is.
pub open spec fn escaped_fields(
    s: Seq<char>,
    done: Seq<Seq<char>>,
    current: Seq<char>,
) -> Result<Seq<Seq<char>>, Fault>
    decreases s.len(),
{
    if s.len() == 0 {
        Ok(done.push(current))
    } else if s[0] == '\\' {
        if s.len() == 1 {
            malformed("adapter row ends with an incomplete escape"@)
        } else {
            escaped_fields(s.skip(2), done, current.push(s[1]))
        }
    } else if s[0] == ':' {
        escaped_fields(s.skip(1), done.push(current), Seq::empty())
    } else {
        escaped_fields(s.skip(1), done, current.push(s[0]))
    }
}

/// The fields of a row.
pub open spec fn row_fields(line: Seq<char>) -> Result<Seq<Seq<char>>, Fault> {
    escaped_fields(line, Seq::empty(), Seq::empty())
}

/// A field with every colon and backslash escaped.
pub open spec fn escaped(field: Seq<char>) -> Seq<char>
    decreases field.len(),
{
    if field.len() == 0 {
        Seq::empty()
    } else if field[0] == '\\' || field[0] == ':' {
        seq!['\\', field[0]] + escaped(field.skip(1))
    } else {
        seq![field[0]] + escaped(field.skip(1))
    }
}

/// A row of escaped fields.
pub open spec fn escaped_row(fields: Seq<Seq<char>>) -> Seq<char>
    decreases fields.len(),
{
    if fields.len() == 0 {
        Seq::empty()
    } else if fields.len() == 1 {
        escaped(fields[0])
    } else {
        escaped(fields[0]) + (seq![':'] + escaped_row(fields.skip(1)))
    }
}

proof fn escaped_field_is_read(
    field: Seq<char>,
    rest: Seq<char>,
    done: Seq<Seq<char>>,
    current: Seq<char>,
)
    ensures
        escaped_fields(escaped(field) + rest, done, current) == escaped_fields(
            rest,
            done,
            current + field,
        ),
    decreases field.len(),
{
    if field.len() == 0 {
        assert(escaped(field) + rest =~= rest);
        assert(current + field =~= current);
    } else {
        let whole = escaped(field) + rest;
        let tail = escaped(field.skip(1)) + rest;
        assert(current + field =~= current.push(field[0]) + field.skip(1));
        escaped_field_is_read(field.skip(1), rest, done, current.push(field[0]));
        if field[0] == '\\' || field[0] == ':' {
            assert(whole[0] == '\\' && whole[1] == field[0]);
            assert(whole.skip(2) =~= tail);
        } else {
            assert(whole[0] == field[0]);
            assert(whole.skip(1) =~= tail);
        }
    }
}

proof fn escaped_row_is_read(fields: Seq<Seq<char>>, done: Seq<Seq<char>>)
    requires
        fields.len() > 0,
    ensures
        escaped_fields(escaped_row(fields), done, Seq::empty()) == Ok::<Seq<Seq<char>>, Fault>(
            done + fields,
        ),
    decreases fields.len(),
{
    let none = Seq::<char>::empty();
    assert(none + fields[0] =~= fields[0]);
    if fields.len() == 1 {
        assert(escaped(fields[0]) + none =~= escaped(fields[0]));
        escaped_field_is_read(fields[0], none, done, none);
        assert(done.push(fields[0]) =~= done + fields);
    } else {
        let rest = seq![':'] + escaped_row(fields.skip(1));
        escaped_field_is_read(fields[0], rest, done, none);
        assert(rest.skip(1) =~= escaped_row(fields.skip(1)));
        escaped_row_is_read(fields.skip(1), done.push(fields[0]));
        assert(done.push(fields[0]) + fields.skip(1) =~= done + fields);
    }
}

/// Escaped fields are read back as they were, whatever they hold.
pub proof fn escaped_rows_are_read_back(fields: Seq<Seq<char>>)
    requires
        fields.len() > 0,
    ensures
        row_fields(escaped_row(fields)) == Ok::<Seq<Seq<char>>, Fault>(fields),
{
    escaped_row_is_read(fields, Seq::empty());
    assert(Seq::<Seq<char>>::empty() + fields =~= fields);
}

/// How many backslashes a line ends with.
pub open spec fn trailing_backslashes(line: Seq<char>) -> nat
    decreases line.len(),
{
    if line.len() == 0 || line.last() != '\\' {
        0
    } else {
        1 + trailing_backslashes(line.drop_last())
    }
}

/// One more character at the front counts only where nothing but backslashes follows.
proof fn backslashes_from_the_front(line: Seq<char>)
    requires
        line.len() > 0,
    ensures
        trailing_backslashes(line.skip(1)) <= line.len() - 1,
        trailing_backslashes(line) == if trailing_backslashes(line.skip(1)) == line.len() - 1
            && line[0] == '\\' {
            line.len()
        } else {
            trailing_backslashes(line.skip(1))
        },
    decreases line.len(),
{
    if line.len() > 1 {
        let shorter = line.drop_last();
        backslashes_from_the_front(shorter);
        assert(line.skip(1).drop_last() =~= shorter.skip(1));
        assert(line.skip(1).last() == line.last());
    } else {
        assert(line.skip(1) =~= Seq::<char>::empty());
        assert(line.drop_last() =~= Seq::<char>::empty());
        assert(trailing_backslashes(line.drop_last()) == 0);
    }
}

proof fn unfinished_escapes_are_found(s: Seq<char>, done: Seq<Seq<char>>, current: Seq<char>)
    ensures
        escaped_fields(s, done, current) is Err <==> trailing_backslashes(s) % 2 == 1,
        escaped_fields(s, done, current) is Err ==> escaped_fields(s, done, current) == malformed::<
            Seq<Seq<char>>,
        >("adapter row ends with an incomplete escape"@),
    decreases s.len(),
{
    if s.len() > 0 {
        backslashes_from_the_front(s);
        if s[0] == '\\' {
            if s.len() > 1 {
                assert(s.skip(1).skip(1) =~= s.skip(2));
                assert(s.skip(1)[0] == s[1]);
                backslashes_from_the_front(s.skip(1));
                unfinished_escapes_are_found(s.skip(2), done, current.push(s[1]));
            } else {
                assert(s.skip(1) =~= Seq::<char>::empty());
                assert(trailing_backslashes(s.skip(1)) == 0);
            }
        } else if s[0] == ':' {
            unfinished_escapes_are_found(s.skip(1), done.push(current), Seq::empty());
        } else {
            unfinished_escapes_are_found(s.skip(1), done, current.push(s[0]));
        }
    }
}

/// A line is refused if and only if it ends within an escape: with an odd number of
/// backslashes.
pub proof fn only_unfinished_escapes_are_refused(line: Seq<char>)
    ensures
        row_fields(line) is Err <==> trailing_backslashes(line) % 2 == 1,
        row_fields(line) is Err ==> row_fields(line) == malformed::<Seq<Seq<char>>>(
            "adapter row ends with an incomplete escape"@,
        ),
{
    unfinished_escapes_are_found(line, Seq::empty(), Seq::empty());
}

/// Splits a line at its colons; a backslash takes the character after it as it is.
pub fn split_escaped(line: &[char]) -> (fields: Result<Vec<Vec<char>>, SessionError>)
    ensures
        fields is Err <==> trailing_backslashes(line@) % 2 == 1,
        match fields {
            Ok(fields) => row_fields(line@) == Ok::<Seq<Seq<char>>, Fault>(pieces(fields@)),
            Err(error) => row_fields(line@) == Err::<Seq<Seq<char>>, Fault>(
                (error.kind, error.message@),
            ),
        },
{
    let mut done: Vec<Vec<char>> = Vec::new();
    let mut current: Vec<char> = Vec::new();
    let mut i: usize = 0;
    assert(line@.skip(0) =~= line@);
    assert(pieces(done@) =~= Seq::empty());
    while i < line.len()
        invariant
            i <= line@.len(),
            row_fields(line@) == escaped_fields(line@.skip(i as int), pieces(done@), current@),
        decreases line.len() - i,
    {
        let ghost rest = line@.skip(i as int);
        assert(rest[0] == line@[i as int]);
        let c: char = line[i];
        if c == '\\' {
            if i + 1 == line.len() {
                proof {
                    only_unfinished_escapes_are_refused(line@);
                }
                return invalid("adapter row ends with an incomplete escape");
            }
            assert(rest[1] == line@[i + 1]);
            assert(rest.skip(2) =~= line@.skip(i + 2));
            current.push(line[i + 1]);
            i = i + 2;
        } else {
            assert(rest.skip(1) =~= line@.skip(i + 1));
            if c == ':' {
                let ghost before = done@;
                let ghost field = current@;
                done.push(current);
                assert(pieces(done@) =~= pieces(before).push(field));
                current = Vec::new();
                assert(current@ =~= Seq::empty());
            } else {
                current.push(c);
            }
            i = i + 1;
        }
    }
    let ghost before = done@;
    let ghost field = current@;
    done.push(current);
    assert(pieces(done@) =~= pieces(before).push(field));
    proof {
        only_unfinished_escapes_are_refused(line@);
    }
    Ok(done)
}

pub struct AccessPointView {
    pub id: Seq<char>,
    pub ssid: Seq<char>,
    pub signal: u8,
    pub secured: bool,
}

impl View for NetworkAccessPoint {
    type V = AccessPointView;

    open spec fn view(&self) -> AccessPointView {
        AccessPointView {
            id: self.id@,
            ssid: self.ssid@,
            signal: self.signal,
            secured: self.secured,
        }
    }
}

pub struct ConnectionView {
    pub id: Seq<char>,
    pub name: Seq<char>,
    pub kind: NetworkConnectionKind,
    pub connected: bool,
}

impl View for NetworkConnection {
    type V = ConnectionView;

    open spec fn view(&self) -> ConnectionView {
        ConnectionView {
            id: self.id@,
            name: self.name@,
            kind: self.kind,
            connected: self.connected,
        }
    }
}

pub struct NetworkView {
    pub wifi_enabled: bool,
    pub scanning: bool,
    pub access_points: Seq<AccessPointView>,
    pub connections: Seq<ConnectionView>,
}

impl View for NetworkSnapshot {
    type V = NetworkView;

    open spec fn view(&self) -> NetworkView {
        NetworkView {
            wifi_enabled: self.wifi_enabled,
            scanning: self.scanning,
            access_points: views(self.access_points@),
            connections: views(self.connections@),
        }
    }
}

/// The network together with the access points that are in use.
pub struct NetworkReadback {
    pub snapshot: NetworkSnapshot,
    pub active_access_points: Vec<String>,
}

pub struct ReadbackView {
    pub snapshot: NetworkView,
    pub active: Seq<Seq<char>>,
}

impl View for NetworkReadback {
    type V = ReadbackView;

    open spec fn view(&self) -> ReadbackView {
        ReadbackView { snapshot: self.snapshot@, active: views(self.active_access_points@) }
    }
}

/// The access points read so far, and which of them are in use.
pub struct PointsView {
    pub points: Seq<AccessPointView>,
    pub active: Seq<Seq<char>>,
}

pub open spec fn has_point(points: Seq<AccessPointView>, id: Seq<char>) -> bool {
    exists|i: int| 0 <= i < points.len() && (#[trigger] points[i]).id == id
}

pub open spec fn has_connection(connections: Seq<ConnectionView>, id: Seq<char>) -> bool {
    exists|i: int| 0 <= i < connections.len() && (#[trigger] connections[i]).id == id
}

/// The most access points that are read.
pub const MAX_ACCESS_POINTS: usize = 4_096;

/// What a row about an access point adds. Rows without a name, and further rows
/// about the same address, add nothing.
pub open spec fn with_access_point(found: PointsView, line: Seq<char>) -> Result<
    PointsView,
    Fault,
> {
    if line.len() == 0 {
        Ok(found)
    } else {
        match row_fields(line) {
            Err(fault) => Err(fault),
            Ok(fields) => if fields.len() != 5 || !(fields[0].len() == 0 || fields[0] == "*"@) {
                malformed("NetworkManager access-point row is malformed"@)
            } else if fields[2].len() == 0 {
                Ok(found)
            } else {
                match access_point_identifier(fields[1]) {
                    Err(fault) => Err(fault),
                    Ok(id) => if has_point(found.points, id) {
                        Ok(found)
                    } else {
                        match unsigned_value(fields[3], 255) {
                            None => malformed("invalid Wi-Fi signal"@),
                            Some(signal) => if signal > 100 {
                                malformed("Wi-Fi signal is outside 0..100"@)
                            } else if found.points.len() + 1 > MAX_ACCESS_POINTS {
                                malformed("too many Wi-Fi access points"@)
                            } else {
                                Ok(
                                    PointsView {
                                        points: found.points.push(
                                            AccessPointView {
                                                id,
                                                ssid: fields[2],
                                                signal: signal as u8,
                                                secured: fields[4].len() > 0 && fields[4] != "--"@
                                                    && fields[4] != "NONE"@,
                                            },
                                        ),
                                        active: if fields[0] == "*"@ {
                                            found.active.push(id)
                                        } else {
                                            found.active
                                        },
                                    },
                                )
                            },
                        }
                    },
                }
            },
        }
    }
}

pub open spec fn connection_kind(kind: Seq<char>) -> Option<NetworkConnectionKind> {
    if kind == "802-11-wireless"@ || kind == "wifi"@ {
        Some(NetworkConnectionKind::Wifi)
    } else if kind == "802-3-ethernet"@ || kind == "ethernet"@ {
        Some(NetworkConnectionKind::Ethernet)
    } else if has_part(kind, "vpn"@) || kind == "wireguard"@ {
        Some(NetworkConnectionKind::Vpn)
    } else {
        None
    }
}

fn parse_kind(kind: &[char]) -> (parsed: Option<NetworkConnectionKind>)
    ensures
        parsed == connection_kind(kind@),
{
    if is_text(kind, "802-11-wireless") || is_text(kind, "wifi") {
        Some(NetworkConnectionKind::Wifi)
    } else if is_text(kind, "802-3-ethernet") || is_text(kind, "ethernet") {
        Some(NetworkConnectionKind::Ethernet)
    } else if contains_text(kind, "vpn") || is_text(kind, "wireguard") {
        Some(NetworkConnectionKind::Vpn)
    } else {
        None
    }
}

/// What a row about a connection adds. Connections of other kinds add nothing.
pub open spec fn with_connection(found: Seq<ConnectionView>, line: Seq<char>) -> Result<
    Seq<ConnectionView>,
    Fault,
> {
    if line.len() == 0 {
        Ok(found)
    } else {
        match row_fields(line) {
            Err(fault) => Err(fault),
            Ok(fields) => if fields.len() != 4 || fields[1].len() == 0 {
                malformed("NetworkManager connection row is malformed"@)
            } else {
                match connection_kind(fields[2]) {
                    None => Ok(found),
                    Some(kind) => match connection_identifier(fields[0]) {
                        Err(fault) => Err(fault),
                        Ok(id) => if has_connection(found, id) {
                            malformed("duplicate NetworkManager connection UUID"@)
                        } else {
                            Ok(
                                found.push(
                                    ConnectionView {
                                        id,
                                        name: fields[1],
                                        kind,
                                        connected: fields[3].len() > 0 && fields[3] != "--"@,
                                    },
                                ),
                            )
                        },
                    },
                }
            },
        }
    }
}

pub open spec fn wifi_state(radio: Seq<u8>) -> Result<bool, Fault> {
    match text_in(radio, "adapter output is not UTF-8"@) {
        Err(fault) => Err(fault),
        Ok(radio) => if trim(radio) == "enabled"@ {
            Ok(true)
        } else if trim(radio) == "disabled"@ {
            Ok(false)
        } else {
            malformed("NetworkManager returned an unknown Wi-Fi state"@)
        },
    }
}

/// The access points in the output of the program.
pub open spec fn points_in(output: Seq<u8>) -> Result<PointsView, Fault> {
    match text_in(output, "adapter output is not UTF-8"@) {
        Err(fault) => Err(fault),
        Ok(text) => folded(
            lines(text),
            PointsView { points: Seq::empty(), active: Seq::empty() },
            |found: PointsView, line: Seq<char>| with_access_point(found, line),
        ),
    }
}

/// The connections in the output of the program.
pub open spec fn connections_in(output: Seq<u8>) -> Result<Seq<ConnectionView>, Fault> {
    match text_in(output, "adapter output is not UTF-8"@) {
        Err(fault) => Err(fault),
        Ok(text) => folded(
            lines(text),
            Seq::empty(),
            |found: Seq<ConnectionView>, line: Seq<char>| with_connection(found, line),
        ),
    }
}

/// The network that the three outputs tell of. Access points count only while the
/// radio is on.
pub open spec fn readback_in(
    radio: Seq<u8>,
    access_points: Seq<u8>,
    connections: Seq<u8>,
) -> Result<ReadbackView, Fault> {
    match wifi_state(radio) {
        Err(fault) => Err(fault),
        Ok(wifi_enabled) => match (if wifi_enabled {
            points_in(access_points)
        } else {
            Ok(PointsView { points: Seq::empty(), active: Seq::empty() })
        }) {
            Err(fault) => Err(fault),
            Ok(found) => match connections_in(connections) {
                Err(fault) => Err(fault),
                Ok(connections) => Ok(
                    ReadbackView {
                        snapshot: NetworkView {
                            wifi_enabled,
                            scanning: false,
                            access_points: found.points,
                            connections,
                        },
                        active: found.active,
                    },
                ),
            },
        },
    }
}

struct Points {
    points: Vec<NetworkAccessPoint>,
    active: Vec<String>,
}

impl View for Points {
    type V = PointsView;

    closed spec fn view(&self) -> PointsView {
        PointsView { points: views(self.points@), active: views(self.active@) }
    }
}

fn knows_point(points: &Vec<NetworkAccessPoint>, id: &str) -> (found: bool)
    ensures
        found == has_point(views(points@), id@),
{
    for i in 0..points.len()
        invariant
            forall|j: int| 0 <= j < i ==> (#[trigger] views(points@)[j]).id != id@,
    {
        assert(views(points@)[i as int] == points@[i as int]@);
        if same_text(points[i].id.as_str(), id) {
            return true;
        }
    }
    false
}

fn knows_connection(connections: &Vec<NetworkConnection>, id: &str) -> (found: bool)
    ensures
        found == has_connection(views(connections@), id@),
{
    for i in 0..connections.len()
        invariant
            forall|j: int| 0 <= j < i ==> (#[trigger] views(connections@)[j]).id != id@,
    {
        assert(views(connections@)[i as int] == connections@[i as int]@);
        if same_text(connections[i].id.as_str(), id) {
            return true;
        }
    }
    false
}

fn take_access_point(found: Points, line: &[char]) -> (next: Result<Points, SessionError>)
    ensures
        seen(next) == with_access_point(found@, line@),
{
    if line.len() == 0 {
        return Ok(found);
    }
    let fields = match split_escaped(line) {
        Ok(fields) => fields,
        Err(error) => return Err(error),
    };
    assert(pieces(fields@).len() == fields@.len());
    if fields.len() != 5 {
        return invalid("NetworkManager access-point row is malformed");
    }
    assert forall|i: int| 0 <= i < 5 implies #[trigger] pieces(fields@)[i] == fields@[i]@ by {}
    let in_use = is_text(fields[0].as_slice(), "*");
    if fields[0].len() != 0 && !in_use {
        return invalid("NetworkManager access-point row is malformed");
    }
    if fields[2].len() == 0 {
        return Ok(found);
    }
    let id = match access_point_id(fields[1].as_slice()) {
        Ok(id) => id,
        Err(error) => return Err(error),
    };
    if knows_point(&found.points, id.as_str()) {
        return Ok(found);
    }
    let signal: u64 = match parse_u64(fields[3].as_slice()) {
        Some(signal) => signal,
        None => return invalid("invalid Wi-Fi signal"),
    };
    if signal > 255 {
        return invalid("invalid Wi-Fi signal");
    }
    if signal > 100 {
        return invalid("Wi-Fi signal is outside 0..100");
    }
    assert(views(found.points@).len() == found.points@.len());
    let mut next = found;
    if next.points.len() >= MAX_ACCESS_POINTS {
        return invalid("too many Wi-Fi access points");
    }
    let last = fields[4].as_slice();
    let secured = last.len() > 0 && !is_text(last, "--") && !is_text(last, "NONE");
    if in_use {
        let ghost before = next.active@;
        let copy = id.clone();
        proof {
            views_of_push(before, copy);
        }
        next.active.push(copy);
    }
    let point = NetworkAccessPoint {
        id,
        ssid: string_of(fields[2].as_slice()),
        signal: signal as u8,
        secured,
    };
    proof {
        views_of_push(next.points@, point);
    }
    next.points.push(point);
    Ok(next)
}

fn take_connection(found: Vec<NetworkConnection>, line: &[char]) -> (next: Result<
    Vec<NetworkConnection>,
    SessionError,
>)
    ensures
        match next {
            Ok(next) => with_connection(views(found@), line@) == Ok::<Seq<ConnectionView>, Fault>(
                views(next@),
            ),
            Err(error) => with_connection(views(found@), line@) == Err::<
                Seq<ConnectionView>,
                Fault,
            >((error.kind, error.message@)),
        },
{
    if line.len() == 0 {
        return Ok(found);
    }
    let fields = match split_escaped(line) {
        Ok(fields) => fields,
        Err(error) => return Err(error),
    };
    assert(pieces(fields@).len() == fields@.len());
    if fields.len() != 4 {
        return invalid("NetworkManager connection row is malformed");
    }
    assert forall|i: int| 0 <= i < 4 implies #[trigger] pieces(fields@)[i] == fields@[i]@ by {}
    if fields[1].len() == 0 {
        return invalid("NetworkManager connection row is malformed");
    }
    let kind = match parse_kind(fields[2].as_slice()) {
        Some(kind) => kind,
        None => return Ok(found),
    };
    let id = match connection_id(fields[0].as_slice()) {
        Ok(id) => id,
        Err(error) => return Err(error),
    };
    if knows_connection(&found, id.as_str()) {
        return invalid("duplicate NetworkManager connection UUID");
    }
    let device = fields[3].as_slice();
    let connection = NetworkConnection {
        id,
        name: string_of(fields[1].as_slice()),
        kind,
        connected: device.len() > 0 && !is_text(device, "--"),
    };
    let mut next = found;
    proof {
        views_of_push(next@, connection);
    }
    next.push(connection);
    Ok(next)
}

fn read_points(output: &[u8]) -> (found: Result<Points, SessionError>)
    ensures
        seen(found) == points_in(output@),
{
    let text = match read_text(output, "adapter output is not UTF-8") {
        Ok(text) => text,
        Err(error) => return Err(error),
    };
    let rows = lines_of(text.as_slice());
    let ghost all = lines(text@);
    let ghost step = |found: PointsView, line: Seq<char>| with_access_point(found, line);
    let mut found = Points { points: Vec::new(), active: Vec::new() };
    assert(found@.points =~= Seq::empty());
    assert(found@.active =~= Seq::empty());
    assert(all.skip(0) =~= all);
    for i in 0..rows.len()
        invariant
            all == pieces(rows@),
            step == (|found: PointsView, line: Seq<char>| with_access_point(found, line)),
            folded(all.skip(i as int), found@, step) == points_in(output@),
    {
        proof {
            folded_step(all, i as int, found@, step);
            assert(all[i as int] == rows@[i as int]@);
        }
        found = match take_access_point(found, rows[i].as_slice()) {
            Ok(next) => next,
            Err(error) => return Err(error),
        };
    }
    assert(all.len() == rows@.len());
    Ok(found)
}

fn read_connections(output: &[u8]) -> (found: Result<Vec<NetworkConnection>, SessionError>)
    ensures
        match found {
            Ok(found) => connections_in(output@) == Ok::<Seq<ConnectionView>, Fault>(
                views(found@),
            ),
            Err(error) => connections_in(output@) == Err::<Seq<ConnectionView>, Fault>(
                (error.kind, error.message@),
            ),
        },
{
    let text = match read_text(output, "adapter output is not UTF-8") {
        Ok(text) => text,
        Err(error) => return Err(error),
    };
    let rows = lines_of(text.as_slice());
    let ghost all = lines(text@);
    let ghost step = |found: Seq<ConnectionView>, line: Seq<char>| with_connection(found, line);
    let mut found: Vec<NetworkConnection> = Vec::new();
    assert(views(found@) =~= Seq::empty());
    assert(all.skip(0) =~= all);
    for i in 0..rows.len()
        invariant
            all == pieces(rows@),
            step == (|found: Seq<ConnectionView>, line: Seq<char>| with_connection(found, line)),
            folded(all.skip(i as int), views(found@), step) == connections_in(output@),
    {
        proof {
            folded_step(all, i as int, views(found@), step);
            assert(all[i as int] == rows@[i as int]@);
        }
        found = match take_connection(found, rows[i].as_slice()) {
            Ok(next) => next,
            Err(error) => return Err(error),
        };
    }
    assert(all.len() == rows@.len());
    Ok(found)
}

/// Reads the network from the three outputs.
pub fn parse_readback(radio: &[u8], access_points: &[u8], connections: &[u8]) -> (readback: Result<
    NetworkReadback,
    SessionError,
>)
    ensures
        seen(readback) == readback_in(radio@, access_points@, connections@),
{
    let radio = match read_text(radio, "adapter output is not UTF-8") {
        Ok(radio) => radio,
        Err(error) => return Err(error),
    };
    let state = trim_chars(radio.as_slice());
    let wifi_enabled = if is_text(state, "enabled") {
        true
    } else if is_text(state, "disabled") {
        false
    } else {
        return invalid("NetworkManager returned an unknown Wi-Fi state");
    };
    proof {
        reveal_strlit("enabled");
        reveal_strlit("disabled");
        assert("enabled"@.len() != "disabled"@.len());
    }
    let found = if wifi_enabled {
        match read_points(access_points) {
            Ok(found) => found,
            Err(error) => return Err(error),
        }
    } else {
        let none = Points { points: Vec::new(), active: Vec::new() };
        assert(none@.points =~= Seq::empty());
        assert(none@.active =~= Seq::empty());
        none
    };
    let connections = match read_connections(connections) {
        Ok(connections) => connections,
        Err(error) => return Err(error),
    };
    Ok(
        NetworkReadback {
            snapshot: NetworkSnapshot {
                wifi_enabled,
                scanning: false,
                access_points: found.points,
                connections,
            },
            active_access_points: found.active,
        },
    )
}

/// The network without the access points in use.
pub open spec fn snapshot_in(
    radio: Seq<u8>,
    access_points: Seq<u8>,
    connections: Seq<u8>,
) -> Result<NetworkView, Fault> {
    match readback_in(radio, access_points, connections) {
        Ok(readback) => Ok(readback.snapshot),
        Err(fault) => Err(fault),
    }
}

pub fn parse_snapshot(radio: &[u8], access_points: &[u8], connections: &[u8]) -> (snapshot: Result<
    NetworkSnapshot,
    SessionError,
>)
    ensures
        seen(snapshot) == snapshot_in(radio@, access_points@, connections@),
{
    match parse_readback(radio, access_points, connections) {
        Ok(readback) => Ok(readback.snapshot),
        Err(error) => Err(error),
    }
}

// ---------------------------------------------------------------------------
// Probing and changing
// ---------------------------------------------------------------------------

/// Whether the network was read: what came of its three programs leads to it.
pub open spec fn readback_by(
    runs: Runs,
    readback: Result<ReadbackView, Fault>,
) -> bool {
    leads(
        runs,
        radio_line(),
        readback,
        |radio: Seq<u8>|
            leads(
                runs,
                access_points_line(),
                readback,
                |access_points: Seq<u8>|
                    leads(
                        runs,
                        connections_line(),
                        readback,
                        |connections: Seq<u8>|
                            readback == readback_in(radio, access_points, connections),
                    ),
            ),
    )
}

/// The programs that read the network.
pub open spec fn reading_lines() -> spec_fn(CommandView) -> bool {
    |line: CommandView|
        line == radio_line() || line == access_points_line() || line == connections_line()
}

fn probe_readback<R: Fn(&CommandSpec) -> Run>(runner: &R) -> (readback: Result<
    NetworkReadback,
    SessionError,
>)
    requires
        grants_all(*runner, reading_lines()),
    ensures
        readback_by(runs_of(*runner), seen(readback)),
{
    let radio = match run(runner, radio_command()) {
        Ok(output) => output,
        Err(error) => return Err(error),
    };
    let access_points = match run(runner, access_points_command()) {
        Ok(output) => output,
        Err(error) => return Err(error),
    };
    let connections = match run(runner, connections_command()) {
        Ok(output) => output,
        Err(error) => return Err(error),
    };
    parse_readback(radio.as_slice(), access_points.as_slice(), connections.as_slice())
}

pub open spec fn snapshot_by(
    runs: Runs,
    snapshot: Result<NetworkView, Fault>,
) -> bool {
    exists|readback: Result<ReadbackView, Fault>| #[trigger]
        readback_by(runs, readback) && snapshot == match readback {
            Ok(readback) => Ok(readback.snapshot),
            Err(fault) => Err(fault),
        }
}

/// Reads the network.
pub fn probe<R: Fn(&CommandSpec) -> Run>(runner: &R) -> (snapshot: Result<
    NetworkSnapshot,
    SessionError,
>)
    requires
        grants_all(*runner, reading_lines()),
    ensures
        snapshot_by(runs_of(*runner), seen(snapshot)),
{
    match probe_readback(runner) {
        Ok(readback) => Ok(readback.snapshot),
        Err(error) => Err(error),
    }
}

/// Whether the network is as a change would leave it.
pub open spec fn confirmed(command: NetworkCommand, readback: ReadbackView) -> bool {
    match command {
        NetworkCommand::SetWifiEnabled { enabled } => readback.snapshot.wifi_enabled == enabled,
        NetworkCommand::ScanWifi => !readback.snapshot.scanning,
        NetworkCommand::ConnectWifi { access_point_id } => readback.active.contains(
            access_point_id.0@,
        ),
        NetworkCommand::Disconnect { connection_id } => forall|i: int|
            0 <= i < readback.snapshot.connections.len() ==> {
                let connection = #[trigger] readback.snapshot.connections[i];
                connection.id != connection_id.0@ || !connection.connected
            },
    }
}

/// The network after a change, if it is as the change would leave it.
pub open spec fn confirmation(command: NetworkCommand, readback: ReadbackView) -> Result<
    NetworkView,
    Fault,
> {
    if confirmed(command, readback) {
        Ok(readback.snapshot)
    } else {
        Err(
            (
                ErrorKind::Other,
                "NetworkManager readback did not confirm the requested state"@,
            ),
        )
    }
}

fn in_use(active: &Vec<String>, id: &str) -> (found: bool)
    ensures
        found == views(active@).contains(id@),
{
    for i in 0..active.len()
        invariant
            forall|j: int| 0 <= j < i ==> #[trigger] views(active@)[j] != id@,
    {
        assert(views(active@)[i as int] == active@[i as int]@);
        if same_text(active[i].as_str(), id) {
            return true;
        }
    }
    false
}

fn still_connected(connections: &Vec<NetworkConnection>, id: &str) -> (found: bool)
    ensures
        found == !(forall|i: int|
            0 <= i < views(connections@).len() ==> {
                let connection = #[trigger] views(connections@)[i];
                connection.id != id@ || !connection.connected
            }),
{
    for i in 0..connections.len()
        invariant
            forall|j: int|
                0 <= j < i ==> {
                    let connection = #[trigger] views(connections@)[j];
                    connection.id != id@ || !connection.connected
                },
    {
        assert(views(connections@)[i as int] == connections@[i as int]@);
        if connections[i].connected && same_text(connections[i].id.as_str(), id) {
            return true;
        }
    }
    false
}

/// Compares the network after a change with what the change would leave.
pub fn confirm(command: &NetworkCommand, readback: NetworkReadback) -> (snapshot: Result<
    NetworkSnapshot,
    SessionError,
>)
    ensures
        seen(snapshot) == confirmation(*command, readback@),
{
    let confirmed = match command {
        NetworkCommand::SetWifiEnabled { enabled } => readback.snapshot.wifi_enabled == *enabled,
        NetworkCommand::ScanWifi => !readback.snapshot.scanning,
        NetworkCommand::ConnectWifi { access_point_id } => in_use(
            &readback.active_access_points,
            access_point_id.as_str(),
        ),
        NetworkCommand::Disconnect { connection_id } => !still_connected(
            &readback.snapshot.connections,
            connection_id.as_str(),
        ),
    };
    if !confirmed {
        return Err(
            SessionError::new(
                ErrorKind::Other,
                "NetworkManager readback did not confirm the requested state",
            ),
        );
    }
    Ok(readback.snapshot)
}

/// Whether a change was made: the program that makes it and the programs that then
/// read the network lead to the result.
pub open spec fn mutation_by(
    changes: Runs,
    runs: Runs,
    command: NetworkCommand,
    snapshot: Result<NetworkView, Fault>,
) -> bool {
    match mutation_line(command) {
        Err(fault) => snapshot == Err::<NetworkView, Fault>(fault),
        Ok(line) => leads(
            changes,
            line,
            snapshot,
            |_output: Seq<u8>|
                exists|readback: Result<ReadbackView, Fault>| #[trigger]
                    readback_by(runs, readback) && snapshot == match readback {
                        Ok(readback) => confirmation(command, readback),
                        Err(fault) => Err(fault),
                    },
        ),
    }
}

/// Makes a change, once, and then reads the network again. The change succeeds only
/// if the network confirms it.
pub fn mutate<C: FnOnce(&CommandSpec) -> Run, R: Fn(&CommandSpec) -> Run>(
    change: C,
    runner: &R,
    command: &NetworkCommand,
) -> (snapshot: Result<NetworkSnapshot, SessionError>)
    requires
        may_change(change, *runner, mutation_line(*command), reading_lines()),
    ensures
        mutation_by(runs_of(change), runs_of(*runner), *command, seen(snapshot)),
{
    let spec = match mutation_spec(command) {
        Ok(spec) => spec,
        Err(error) => return Err(error),
    };
    match run_once(change, spec) {
        Ok(_) => {},
        Err(error) => return Err(error),
    }
    let readback = match probe_readback(runner) {
        Ok(readback) => readback,
        Err(error) => return Err(error),
    };
    confirm(command, readback)
}

/// A change that succeeds was accepted by the program that makes it, and was
/// confirmed by what the programs that read the network gave.
pub proof fn a_change_is_confirmed(
    changes: Runs,
    runs: Runs,
    command: NetworkCommand,
    snapshot: NetworkView,
)
    requires
        mutation_by(changes, runs, command, Ok::<NetworkView, Fault>(snapshot)),
    ensures
        mutation_line(command) is Ok,
        succeeded(changes, mutation_line(command)->Ok_0),
        exists|readback: ReadbackView| #[trigger]
            confirmed(command, readback) && readback.snapshot == snapshot && readback_by(
                runs,
                Ok::<ReadbackView, Fault>(readback),
            ),
{
    let line = mutation_line(command)->Ok_0;
    let outcome = choose|outcome: Result<Seq<u8>, Fault>| #[trigger]
        came_of(changes, line, outcome) && outcome is Ok;
    assert(came_of(changes, line, Ok::<Seq<u8>, Fault>(outcome->Ok_0)));
    let readback = choose|readback: Result<ReadbackView, Fault>| #[trigger]
        readback_by(runs, readback) && Ok::<NetworkView, Fault>(snapshot) == match readback {
            Ok(readback) => confirmation(command, readback),
            Err(fault) => Err(fault),
        };
    assert(confirmed(command, readback->Ok_0));
}

/// Each change is made by its own words: what is switched on is told `on` and what is
/// switched off is told `off`, a scan rescans, a connection is made to the address that
/// its access point stands for, and the one that is taken down is the one that was
/// named.
pub proof fn changes_are_made_in_these_words(
    enabled: bool,
    access_point_id: StableId,
    mac: Seq<char>,
    connection_id: StableId,
    uuid: Seq<char>,
)
    ensures
        mutation_line(NetworkCommand::SetWifiEnabled { enabled: true }) == Ok::<CommandView, Fault>(
            CommandView {
                program: "nmcli"@,
                args: seq!["radio"@, "wifi"@, "on"@],
                timeout: Some(10_000),
            },
        ),
        mutation_line(NetworkCommand::SetWifiEnabled { enabled: false }) == Ok::<
            CommandView,
            Fault,
        >(
            CommandView {
                program: "nmcli"@,
                args: seq!["radio"@, "wifi"@, "off"@],
                timeout: Some(10_000),
            },
        ),
        mutation_line(NetworkCommand::ScanWifi) == Ok::<CommandView, Fault>(
            CommandView {
                program: "nmcli"@,
                args: seq!["device"@, "wifi"@, "rescan"@],
                timeout: Some(10_000),
            },
        ),
        is_mac(mac) && access_point_identifier(mac) == Ok::<Seq<char>, Fault>(access_point_id.0@)
            ==> mutation_line(NetworkCommand::ConnectWifi { access_point_id }) == Ok::<
            CommandView,
            Fault,
        >(
            CommandView {
                program: "nmcli"@,
                args: seq!["device"@, "wifi"@, "connect"@, upper(mac)],
                timeout: Some(10_000),
            },
        ),
        connection_identifier(uuid) == Ok::<Seq<char>, Fault>(connection_id.0@) ==> mutation_line(
            NetworkCommand::Disconnect { connection_id },
        ) == Ok::<CommandView, Fault>(
            CommandView {
                program: "nmcli"@,
                args: seq!["connection"@, "down"@, "uuid"@, uuid],
                timeout: Some(10_000),
            },
        ),
{
    if is_mac(mac) {
        device_identifiers_lead_back("wifi-ap:"@, mac, "invalid device ID"@);
    }
    if connection_identifier(uuid) is Ok {
        connection_identifiers_lead_back(uuid);
    }
}

/// What confirms a change: the radio is as it was asked to be, the access point that was
/// asked for is in use, and the connection that was to go is no longer there or no
/// longer up.
pub proof fn changes_are_confirmed_by_what_was_asked(
    enabled: bool,
    access_point_id: StableId,
    connection_id: StableId,
    readback: ReadbackView,
    at: int,
)
    ensures
        confirmed(NetworkCommand::SetWifiEnabled { enabled }, readback)
            <==> readback.snapshot.wifi_enabled == enabled,
        confirmed(NetworkCommand::ScanWifi, readback) <==> !readback.snapshot.scanning,
        confirmed(NetworkCommand::ConnectWifi { access_point_id }, readback)
            <==> readback.active.contains(access_point_id.0@),
        confirmed(NetworkCommand::Disconnect { connection_id }, readback) && 0 <= at
            < readback.snapshot.connections.len() && readback.snapshot.connections[at].id
            == connection_id.0@ ==> !readback.snapshot.connections[at].connected,
        readback.snapshot.connections.len() == 0 ==> confirmed(
            NetworkCommand::Disconnect { connection_id },
            readback,
        ),
        confirmation(NetworkCommand::SetWifiEnabled { enabled }, readback) is Ok
            <==> readback.snapshot.wifi_enabled == enabled,
        confirmation(NetworkCommand::SetWifiEnabled { enabled }, readback) is Ok ==> confirmation(
            NetworkCommand::SetWifiEnabled { enabled },
            readback,
        )->Ok_0 == readback.snapshot,
{
}

/// The radio is on where the program says `enabled` and off where it says `disabled`,
/// and while it is off no access point counts.
pub proof fn the_radio_is_read_as_it_is_told(
    radio: Seq<u8>,
    access_points: Seq<u8>,
    connections: Seq<u8>,
    readback: ReadbackView,
)
    requires
        readback_in(radio, access_points, connections) == Ok::<ReadbackView, Fault>(readback),
    ensures
        readback.snapshot.wifi_enabled <==> trim(vstd::utf8::decode_utf8(radio)) == "enabled"@,
        !readback.snapshot.wifi_enabled <==> trim(vstd::utf8::decode_utf8(radio)) == "disabled"@,
        !readback.snapshot.wifi_enabled ==> readback.snapshot.access_points.len() == 0
            && readback.active.len() == 0,
        !readback.snapshot.scanning,
        connections_in(connections) == Ok::<Seq<ConnectionView>, Fault>(
            readback.snapshot.connections,
        ),
        readback.snapshot.wifi_enabled ==> points_in(access_points) == Ok::<PointsView, Fault>(
            PointsView { points: readback.snapshot.access_points, active: readback.active },
        ),
{
    reveal_strlit("enabled");
    reveal_strlit("disabled");
    assert("enabled"@.len() != "disabled"@.len());
}

/// A row about an access point is read back as it was written: its name, its strength,
/// whether it is secured, and whether it is in use.
pub proof fn access_points_are_read_as_they_are_shown(
    found: PointsView,
    in_use: bool,
    mac: Seq<char>,
    ssid: Seq<char>,
    signal: u8,
    security: Seq<char>,
)
    requires
        is_mac(mac),
        ssid.len() > 0,
        signal <= 100,
        found.points.len() < 4_096,
        !has_point(found.points, access_point_identifier(mac)->Ok_0),
    ensures
        ({
            let mark = if in_use {
                "*"@
            } else {
                Seq::empty()
            };
            let row = escaped_row(seq![mark, mac, ssid, decimal(signal as nat), security]);
            let next = with_access_point(found, row);
            &&& next is Ok
            &&& next->Ok_0.points.drop_last() == found.points
            &&& next->Ok_0.points.last().id == access_point_identifier(mac)->Ok_0
            &&& next->Ok_0.points.last().ssid == ssid
            &&& next->Ok_0.points.last().signal == signal
            &&& !next->Ok_0.points.last().secured <==> security.len() == 0 || security == "--"@
                || security == "NONE"@
            &&& next->Ok_0.active == if in_use {
                found.active.push(access_point_identifier(mac)->Ok_0)
            } else {
                found.active
            }
        }),
{
    let mark = if in_use {
        "*"@
    } else {
        Seq::empty()
    };
    let fields = seq![mark, mac, ssid, decimal(signal as nat), security];
    escaped_rows_are_read_back(fields);
    crate::text::decimal_spells_the_number(signal as nat);
    assert(crate::text::is_digit(decimal(signal as nat)[0]));
    reveal_strlit("*");
    let row = escaped_row(fields);
    rows_of_more_fields_are_not_empty(fields);
    let next = with_access_point(found, row)->Ok_0;
    assert(next.points.drop_last() =~= found.points);
}

proof fn rows_of_more_fields_are_not_empty(fields: Seq<Seq<char>>)
    requires
        fields.len() > 1,
    ensures
        escaped_row(fields).len() > 0,
{
}

/// A row about a connection is read back as it was written: its name, its kind, and
/// that it is up where it has a device.
pub proof fn connections_are_read_as_they_are_shown(
    found: Seq<ConnectionView>,
    uuid: Seq<char>,
    name: Seq<char>,
    kind: Seq<char>,
    device: Seq<char>,
)
    requires
        connection_identifier(uuid) is Ok,
        name.len() > 0,
        connection_kind(kind) is Some,
        !has_connection(found, connection_identifier(uuid)->Ok_0),
    ensures
        ({
            let next = with_connection(found, escaped_row(seq![uuid, name, kind, device]));
            &&& next is Ok
            &&& next->Ok_0.drop_last() == found
            &&& next->Ok_0.last().id == "nm-connection:"@ + uuid
            &&& next->Ok_0.last().name == name
            &&& next->Ok_0.last().kind == connection_kind(kind)->Some_0
            &&& !next->Ok_0.last().connected <==> device.len() == 0 || device == "--"@
        }),
{
    let fields = seq![uuid, name, kind, device];
    escaped_rows_are_read_back(fields);
    rows_of_more_fields_are_not_empty(fields);
    let next = with_connection(found, escaped_row(fields))->Ok_0;
    assert(next.drop_last() =~= found);
}

/// Which kinds of connections there are.
pub proof fn kinds_of_connections(kind: Seq<char>)
    ensures
        connection_kind("802-11-wireless"@) == Some(NetworkConnectionKind::Wifi),
        connection_kind("wifi"@) == Some(NetworkConnectionKind::Wifi),
        connection_kind("802-3-ethernet"@) == Some(NetworkConnectionKind::Ethernet),
        connection_kind("ethernet"@) == Some(NetworkConnectionKind::Ethernet),
        connection_kind("wireguard"@) == Some(NetworkConnectionKind::Vpn),
        connection_kind(kind) == Some(NetworkConnectionKind::Wifi) ==> kind == "802-11-wireless"@
            || kind == "wifi"@,
        connection_kind(kind) == Some(NetworkConnectionKind::Ethernet) ==> kind
            == "802-3-ethernet"@ || kind == "ethernet"@,
        connection_kind(kind) is None ==> !has_part(kind, "vpn"@) && kind != "wireguard"@,
{
    reveal_strlit("802-11-wireless");
    reveal_strlit("wifi");
    reveal_strlit("802-3-ethernet");
    reveal_strlit("ethernet");
    reveal_strlit("wireguard");
    assert("802-11-wireless"@.len() == 15);
    assert("wifi"@.len() == 4);
    assert("802-3-ethernet"@.len() == 14);
    assert("ethernet"@.len() == 8);
    assert("wireguard"@.len() == 9);
}

} // verus!

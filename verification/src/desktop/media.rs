//! Media players, read and steered with `playerctl`.

use vstd::prelude::*;

use crate::command::{
    came_of, command_line, grants_all, leads, limited, may_change, run, run_once, runs_of,
    succeeded, CommandSpec, CommandView, Run, Runs,
};
use crate::error::{
    fault_of, invalid, invalid_input, malformed, refused, seen, ErrorKind, Fault, SessionError,
};
use crate::rows::{
    folded, folded_step, read_by, read_text, reading, text_in, views, views_of_push, Readings,
};
use crate::text::{
    after_prefix, alphanumeric_char, byte_len, chars_of, contains_char, is_ascii_alphanumeric,
    is_blank, is_text, lines, lines_of, pieces, prefixed, same_chars, same_text, split_at_most,
    split_limited, string_of, strip_prefix, text_bytes, trim_chars, trim_end, trim_end_chars,
    trim_is_empty_iff_blank,
};

use super::commands::MediaTransport;
use super::domain::{Level, MediaPlayer, MediaSnapshot, StableId};
use super::wire::{optional_text, same_optional};

verus! {

/// The longest that a command may take, in milliseconds.
pub const MEDIA_TIMEOUT: u64 = 5_000;

/// The most players that are probed.
pub const MAX_PROBED_PLAYERS: usize = 64;

/// How far a player is within a track, read from the texts of its position and of
/// the length of the track.
#[derive(Debug, Clone, Copy, PartialEq, Eq, Structural)]
pub enum Progress {
    BadPosition,
    BadLength,
    /// The position is not between the beginning and the end.
    OutOfRange,
    Level(Level),
}

/// How positions and lengths are read.
pub type Meter = spec_fn(Seq<char>, Seq<char>) -> Progress;

/// Whether a function reads positions and lengths in a given way.
pub open spec fn meters_by<F: Fn(&str, &str) -> Progress>(read: F, meter: Meter) -> bool {
    forall|position: &str, length: &str, progress: Progress|
        #[trigger] call_ensures(read, (position, length), progress) ==> progress == meter(
            position@,
            length@,
        )
}

pub open spec fn can_meter<F: Fn(&str, &str) -> Progress>(read: F) -> bool {
    forall|position: &str, length: &str| #[trigger] call_requires(read, (position, length))
}

// ---------------------------------------------------------------------------
// Identifiers
// ---------------------------------------------------------------------------

pub open spec fn is_bus_char(c: char) -> bool {
    is_ascii_alphanumeric(c) || c == '.' || c == '_' || c == '-'
}

/// Whether a text can name a player on the bus.
pub open spec fn is_bus_name(s: Seq<char>) -> bool {
    &&& 0 < s.len() <= 255
    &&& s.contains('.')
    &&& forall|i: int| 0 <= i < s.len() ==> is_bus_char(#[trigger] s[i])
    &&& s[0] != '-'
}

pub fn valid_bus_name(s: &[char]) -> (valid: bool)
    ensures
        valid == is_bus_name(s@),
{
    if s.len() == 0 || s.len() > 255 || !contains_char(s, '.') || s[0] == '-' {
        return false;
    }
    for i in 0..s.len()
        invariant
            forall|j: int| 0 <= j < i ==> is_bus_char(#[trigger] s@[j]),
    {
        let c: char = s[i];
        if !(alphanumeric_char(c) || c == '.' || c == '_' || c == '-') {
            assert(!is_bus_char(s@[i as int]));
            return false;
        }
    }
    true
}

pub open spec fn player_identifier(name: Seq<char>) -> Result<Seq<char>, Fault> {
    if is_bus_name(name) {
        Ok("mpris:"@ + name)
    } else {
        malformed("invalid MPRIS player name"@)
    }
}

pub fn player_id(name: &[char]) -> (id: Result<String, SessionError>)
    ensures
        seen(id) == player_identifier(name@),
{
    if valid_bus_name(name) {
        Ok(prefixed("mpris:", name))
    } else {
        invalid("invalid MPRIS player name")
    }
}

/// The name in the identifier of a player.
pub open spec fn player_name(id: Seq<char>) -> Result<Seq<char>, Fault> {
    match after_prefix(id, "mpris:"@) {
        Some(name) => if is_bus_name(name) {
            Ok(name)
        } else {
            refused("invalid MPRIS player ID"@)
        },
        None => refused("invalid MPRIS player ID"@),
    }
}

/// The identifier of a player leads back to its name.
pub proof fn player_identifiers_lead_back(name: Seq<char>)
    requires
        player_identifier(name) is Ok,
    ensures
        player_name(player_identifier(name)->Ok_0) == Ok::<Seq<char>, Fault>(name),
{
    let id = player_identifier(name)->Ok_0;
    let prefix = "mpris:"@;
    assert(id.take(prefix.len() as int) =~= prefix);
    assert(id.skip(prefix.len() as int) =~= name);
}

// ---------------------------------------------------------------------------
// Commands
// ---------------------------------------------------------------------------

pub enum MediaCommand {
    Transport { player_id: StableId, transport: MediaTransport },
}

pub open spec fn action_of(transport: MediaTransport) -> Seq<char> {
    match transport {
        MediaTransport::PlayPause => "play-pause"@,
        MediaTransport::Next => "next"@,
        MediaTransport::Previous => "previous"@,
    }
}

/// The command line that steers a player.
pub open spec fn mutation_line(command: MediaCommand) -> Result<CommandView, Fault> {
    let MediaCommand::Transport { player_id, transport } = command;
    transport_line(player_id.0@, transport)
}

pub open spec fn transport_line(id: Seq<char>, transport: MediaTransport) -> Result<
    CommandView,
    Fault,
> {
    match player_name(id) {
        Ok(name) => Ok(
            limited("playerctl"@, seq!["--player"@, name, action_of(transport)], MEDIA_TIMEOUT),
        ),
        Err(fault) => Err(fault),
    }
}

pub fn mutation_spec(command: &MediaCommand) -> (spec: Result<CommandSpec, SessionError>)
    ensures
        seen(spec) == mutation_line(*command),
{
    let MediaCommand::Transport { player_id, transport } = command;
    let letters = chars_of(player_id.as_str());
    let name = match strip_prefix(letters.as_slice(), "mpris:") {
        Some(name) => name,
        None => return invalid_input("invalid MPRIS player ID"),
    };
    if !valid_bus_name(name) {
        return invalid_input("invalid MPRIS player ID");
    }
    let action = match transport {
        MediaTransport::PlayPause => "play-pause",
        MediaTransport::Next => "next",
        MediaTransport::Previous => "previous",
    };
    let player = string_of(name);
    let spec = CommandSpec::new("playerctl").within(MEDIA_TIMEOUT).arg("--player").arg(
        player.as_str(),
    ).arg(action);
    assert(spec@.args =~= seq!["--player"@, player@, action_of(*transport)]);
    Ok(spec)
}

// ---------------------------------------------------------------------------
// Reading
// ---------------------------------------------------------------------------

/// What a line of the list of players adds.
pub open spec fn with_name(found: Seq<Seq<char>>, line: Seq<char>) -> Result<
    Seq<Seq<char>>,
    Fault,
> {
    if line.len() == 0 {
        Ok(found)
    } else if !is_bus_name(line) {
        malformed("invalid MPRIS player name"@)
    } else if found.contains(line) {
        malformed("duplicate MPRIS player name"@)
    } else if found.len() + 1 > MAX_PROBED_PLAYERS {
        malformed("MPRIS player probe exceeds its call budget"@)
    } else {
        Ok(found.push(line))
    }
}

/// The names in the list of players.
pub open spec fn names_in(output: Seq<u8>) -> Result<Seq<Seq<char>>, Fault> {
    match text_in(output, "MPRIS player list is not UTF-8"@) {
        Err(fault) => Err(fault),
        Ok(text) => folded(
            lines(text),
            Seq::empty(),
            |found: Seq<Seq<char>>, line: Seq<char>| with_name(found, line),
        ),
    }
}

fn knows_name(found: &Vec<Vec<char>>, name: &[char]) -> (known: bool)
    ensures
        known == pieces(found@).contains(name@),
{
    for i in 0..found.len()
        invariant
            forall|j: int| 0 <= j < i ==> #[trigger] pieces(found@)[j] != name@,
    {
        assert(pieces(found@)[i as int] == found@[i as int]@);
        if same_chars(found[i].as_slice(), name) {
            return true;
        }
    }
    false
}

fn take_name(found: Vec<Vec<char>>, line: &Vec<char>) -> (next: Result<
    Vec<Vec<char>>,
    SessionError,
>)
    ensures
        match next {
            Ok(next) => with_name(pieces(found@), line@) == Ok::<Seq<Seq<char>>, Fault>(
                pieces(next@),
            ),
            Err(error) => with_name(pieces(found@), line@) == Err::<Seq<Seq<char>>, Fault>(
                (error.kind, error.message@),
            ),
        },
{
    if line.len() == 0 {
        return Ok(found);
    }
    if !valid_bus_name(line.as_slice()) {
        return invalid("invalid MPRIS player name");
    }
    if knows_name(&found, line.as_slice()) {
        return invalid("duplicate MPRIS player name");
    }
    assert(pieces(found@).len() == found@.len());
    if found.len() >= MAX_PROBED_PLAYERS {
        return invalid("MPRIS player probe exceeds its call budget");
    }
    let mut next = found;
    next.push(crate::text::copy_chars(line.as_slice()));
    assert(pieces(next@) =~= pieces(found@).push(line@));
    Ok(next)
}

pub fn player_names(output: &[u8]) -> (names: Result<Vec<Vec<char>>, SessionError>)
    ensures
        match names {
            Ok(names) => names_in(output@) == Ok::<Seq<Seq<char>>, Fault>(pieces(names@)),
            Err(error) => names_in(output@) == Err::<Seq<Seq<char>>, Fault>(
                (error.kind, error.message@),
            ),
        },
{
    let text = match read_text(output, "MPRIS player list is not UTF-8") {
        Ok(text) => text,
        Err(error) => return Err(error),
    };
    let rows = lines_of(text.as_slice());
    let ghost all = lines(text@);
    let ghost step = |found: Seq<Seq<char>>, line: Seq<char>| with_name(found, line);
    let mut found: Vec<Vec<char>> = Vec::new();
    assert(pieces(found@) =~= Seq::empty());
    assert(all.skip(0) =~= all);
    for i in 0..rows.len()
        invariant
            all == pieces(rows@),
            step == (|found: Seq<Seq<char>>, line: Seq<char>| with_name(found, line)),
            folded(all.skip(i as int), pieces(found@), step) == names_in(output@),
    {
        proof {
            folded_step(all, i as int, pieces(found@), step);
            assert(all[i as int] == rows@[i as int]@);
        }
        found = match take_name(found, &rows[i]) {
            Ok(next) => next,
            Err(error) => return Err(error),
        };
    }
    assert(all.len() == rows@.len());
    Ok(found)
}

pub struct PlayerView {
    pub id: Seq<char>,
    pub identity: Seq<char>,
    pub title: Seq<char>,
    pub artist: Seq<char>,
    pub playing: bool,
    pub progress: Level,
}

impl View for MediaPlayer {
    type V = PlayerView;

    open spec fn view(&self) -> PlayerView {
        PlayerView {
            id: self.id@,
            identity: self.identity@,
            title: self.title@,
            artist: self.artist@,
            playing: self.playing,
            progress: self.progress,
        }
    }
}

pub struct MediaView {
    pub players: Seq<PlayerView>,
}

impl View for MediaSnapshot {
    type V = MediaView;

    open spec fn view(&self) -> MediaView {
        MediaView { players: views(self.players@) }
    }
}

/// The players, and the track of each that says which it plays.
pub struct MediaObservation {
    pub snapshot: MediaSnapshot,
    pub track_ids: Vec<Option<String>>,
}

pub struct ObservationView {
    pub players: Seq<PlayerView>,
    pub tracks: Seq<Option<Seq<char>>>,
}

pub open spec fn track_views(tracks: Seq<Option<String>>) -> Seq<Option<Seq<char>>> {
    tracks.map_values(|track: Option<String>| optional_text(track))
}

impl View for MediaObservation {
    type V = ObservationView;

    open spec fn view(&self) -> ObservationView {
        ObservationView {
            players: views(self.snapshot.players@),
            tracks: track_views(self.track_ids@),
        }
    }
}

/// Each observed player has a track, known or not.
pub open spec fn in_step(observation: MediaObservation) -> bool {
    observation.snapshot.players@.len() == observation.track_ids@.len()
}

/// Whether a player plays, or why its state is not known.
pub open spec fn playback(state: Seq<char>) -> Result<bool, Fault> {
    if state == "Playing"@ {
        Ok(true)
    } else if state == "Paused"@ || state == "Stopped"@ {
        Ok(false)
    } else {
        malformed("MPRIS playback state is unknown"@)
    }
}

pub open spec fn progress_of(progress: Progress) -> Result<Level, Fault> {
    match progress {
        Progress::BadPosition => malformed("MPRIS position is invalid"@),
        Progress::BadLength => malformed("MPRIS length is invalid"@),
        Progress::OutOfRange => malformed("MPRIS normalized progress is invalid"@),
        Progress::Level(level) => Ok(level),
    }
}

/// The track that a player says it plays.
pub open spec fn track_of(fields: Seq<Seq<char>>) -> Result<Option<Seq<char>>, Fault> {
    if fields.len() < 7 || fields[6].len() == 0 {
        Ok(None)
    } else if byte_len(fields[6]) > 4_096 || fields[6][0] != '/' {
        malformed("MPRIS track identity is malformed or exceeds its bound"@)
    } else {
        Ok(Some(fields[6]))
    }
}

/// What the metadata of a player adds.
pub open spec fn with_metadata(
    found: ObservationView,
    name: Seq<char>,
    metadata: Seq<(Seq<char>, Seq<u8>)>,
    meter: Meter,
) -> Result<ObservationView, Fault> {
    match reading(metadata, name) {
        None => malformed("MPRIS metadata omitted"@),
        Some(bytes) => match text_in(bytes, "MPRIS metadata is not UTF-8"@) {
            Err(fault) => Err(fault),
            Ok(text) => {
                let fields = split_limited(trim_end(text), '\t', 7);
                if fields.len() < 6 || is_blank(fields[0]) {
                    malformed("MPRIS metadata row is malformed"@)
                } else if byte_len(fields[0]) > 256 || byte_len(fields[1]) > 4_096 || byte_len(
                    fields[2],
                ) > 2_048 {
                    malformed("MPRIS metadata text exceeds its bound"@)
                } else {
                    match playback(fields[3]) {
                        Err(fault) => Err(fault),
                        Ok(playing) => match progress_of(meter(fields[4], fields[5])) {
                            Err(fault) => Err(fault),
                            Ok(progress) => match track_of(fields) {
                                Err(fault) => Err(fault),
                                Ok(track) => match player_identifier(name) {
                                    Err(fault) => Err(fault),
                                    Ok(id) => Ok(
                                        ObservationView {
                                            players: found.players.push(
                                                PlayerView {
                                                    id,
                                                    identity: fields[0],
                                                    title: fields[1],
                                                    artist: fields[2],
                                                    playing,
                                                    progress,
                                                },
                                            ),
                                            tracks: found.tracks.push(track),
                                        },
                                    ),
                                },
                            },
                        },
                    }
                }
            },
        },
    }
}

/// The players of a list with their metadata.
pub open spec fn described(
    names: Seq<Seq<char>>,
    metadata: Seq<(Seq<char>, Seq<u8>)>,
    meter: Meter,
) -> Result<ObservationView, Fault> {
    folded(
        names,
        ObservationView { players: Seq::empty(), tracks: Seq::empty() },
        |found: ObservationView, name: Seq<char>| with_metadata(found, name, metadata, meter),
    )
}

/// What the outputs tell of the players.
pub open spec fn observation_in(
    players: Seq<u8>,
    metadata: Seq<(Seq<char>, Seq<u8>)>,
    meter: Meter,
) -> Result<ObservationView, Fault> {
    match names_in(players) {
        Err(fault) => Err(fault),
        Ok(names) => described(names, metadata, meter),
    }
}

fn read_track(fields: &Vec<Vec<char>>) -> (track: Result<Option<String>, SessionError>)
    ensures
        match track {
            Ok(track) => track_of(pieces(fields@)) == Ok::<Option<Seq<char>>, Fault>(
                optional_text(track),
            ),
            Err(error) => track_of(pieces(fields@)) == Err::<Option<Seq<char>>, Fault>(
                (error.kind, error.message@),
            ),
        },
{
    assert(pieces(fields@).len() == fields@.len());
    if fields.len() < 7 {
        return Ok(None);
    }
    assert(pieces(fields@)[6] == fields@[6]@);
    if fields[6].len() == 0 {
        return Ok(None);
    }
    let track = string_of(fields[6].as_slice());
    if text_bytes(track.as_str()) > 4_096 || fields[6][0] != '/' {
        return invalid("MPRIS track identity is malformed or exceeds its bound");
    }
    Ok(Some(track))
}

fn take_metadata<F: Fn(&str, &str) -> Progress>(
    found: MediaObservation,
    name: &Vec<char>,
    metadata: &Readings,
    read: &F,
) -> (next: Result<MediaObservation, SessionError>)
    requires
        can_meter(*read),
    ensures
        forall|meter: Meter| #[trigger]
            meters_by(*read, meter) ==> seen(next) == with_metadata(
                found@,
                name@,
                metadata@,
                meter,
            ),
        in_step(found) && next is Ok ==> in_step(next->Ok_0),
{
    let bytes = match metadata.get(name.as_slice()) {
        Some(bytes) => bytes,
        None => return invalid("MPRIS metadata omitted"),
    };
    let text = match read_text(bytes.as_slice(), "MPRIS metadata is not UTF-8") {
        Ok(text) => text,
        Err(error) => return Err(error),
    };
    let fields = split_at_most(trim_end_chars(text.as_slice()), '\t', 7);
    assert(pieces(fields@).len() == fields@.len());
    assert forall|i: int| 0 <= i < fields@.len() implies #[trigger] pieces(fields@)[i]
        == fields@[i]@ by {}
    proof {
        trim_is_empty_iff_blank(fields@[0]@);
    }
    if fields.len() < 6 || trim_chars(fields[0].as_slice()).len() == 0 {
        return invalid("MPRIS metadata row is malformed");
    }
    let identity = string_of(fields[0].as_slice());
    let title = string_of(fields[1].as_slice());
    let artist = string_of(fields[2].as_slice());
    if text_bytes(identity.as_str()) > 256 || text_bytes(title.as_str()) > 4_096 || text_bytes(
        artist.as_str(),
    ) > 2_048 {
        return invalid("MPRIS metadata text exceeds its bound");
    }
    let state = fields[3].as_slice();
    proof {
        reveal_strlit("Playing");
        reveal_strlit("Paused");
        reveal_strlit("Stopped");
        assert("Playing"@[1] == 'l' && "Paused"@[1] == 'a' && "Stopped"@[1] == 't');
    }
    let playing = if is_text(state, "Playing") {
        true
    } else if is_text(state, "Paused") || is_text(state, "Stopped") {
        false
    } else {
        return invalid("MPRIS playback state is unknown");
    };
    let position = string_of(fields[4].as_slice());
    let length = string_of(fields[5].as_slice());
    let progress = read(position.as_str(), length.as_str());
    proof {
        assert forall|meter: Meter| #[trigger] meters_by(*read, meter) implies progress == meter(
            position@,
            length@,
        ) by {}
    }
    let progress = match progress {
        Progress::BadPosition => return invalid("MPRIS position is invalid"),
        Progress::BadLength => return invalid("MPRIS length is invalid"),
        Progress::OutOfRange => return invalid("MPRIS normalized progress is invalid"),
        Progress::Level(level) => level,
    };
    let track = match read_track(&fields) {
        Ok(track) => track,
        Err(error) => return Err(error),
    };
    let id = match player_id(name.as_slice()) {
        Ok(id) => id,
        Err(error) => return Err(error),
    };
    let player = MediaPlayer { id, identity, title, artist, playing, progress };
    let mut next = found;
    proof {
        views_of_push(next.snapshot.players@, player);
    }
    next.snapshot.players.push(player);
    let ghost before = next.track_ids@;
    let ghost view = optional_text(track);
    next.track_ids.push(track);
    assert(track_views(next.track_ids@) =~= track_views(before).push(view));
    Ok(next)
}

/// Reads the players from their list and the metadata of each.
#[verifier::loop_isolation(false)]
pub fn parse_observation<F: Fn(&str, &str) -> Progress>(
    players: &[u8],
    metadata: &Readings,
    read: &F,
) -> (observation: Result<MediaObservation, SessionError>)
    requires
        can_meter(*read),
    ensures
        forall|meter: Meter| #[trigger]
            meters_by(*read, meter) ==> seen(observation) == observation_in(
                players@,
                metadata@,
                meter,
            ),
        observation is Ok ==> in_step(observation->Ok_0),
{
    let names = match player_names(players) {
        Ok(names) => names,
        Err(error) => return Err(error),
    };
    let ghost all = pieces(names@);
    let mut found = MediaObservation {
        snapshot: MediaSnapshot { players: Vec::new() },
        track_ids: Vec::new(),
    };
    assert(found@.players =~= Seq::empty());
    assert(found@.tracks =~= Seq::empty());
    assert(all.skip(0) =~= all);
    for i in 0..names.len()
        invariant
            in_step(found),
            forall|meter: Meter| #[trigger]
                meters_by(*read, meter) ==> folded(
                    all.skip(i as int),
                    found@,
                    |found: ObservationView, name: Seq<char>|
                        with_metadata(found, name, metadata@, meter),
                ) == described(all, metadata@, meter),
    {
        let ghost before = found@;
        let next = take_metadata(found, &names[i], metadata, read);
        proof {
            assert(all[i as int] == names@[i as int]@);
            assert forall|meter: Meter| #[trigger] meters_by(*read, meter) implies match next {
                Ok(next) => folded(
                    all.skip(i + 1),
                    next@,
                    |found: ObservationView, name: Seq<char>|
                        with_metadata(found, name, metadata@, meter),
                ) == described(all, metadata@, meter),
                Err(error) => described(all, metadata@, meter) == Err::<ObservationView, Fault>(
                    (error.kind, error.message@),
                ),
            } by {
                folded_step(
                    all,
                    i as int,
                    before,
                    |found: ObservationView, name: Seq<char>|
                        with_metadata(found, name, metadata@, meter),
                );
            }
        }
        found = match next {
            Ok(next) => next,
            Err(error) => return Err(error),
        };
    }
    assert(all.len() == names@.len());
    Ok(found)
}

/// The players without their tracks.
pub open spec fn players_of(observation: Result<ObservationView, Fault>) -> Result<
    MediaView,
    Fault,
> {
    match observation {
        Ok(observation) => Ok(MediaView { players: observation.players }),
        Err(fault) => Err(fault),
    }
}

pub fn parse_snapshot<F: Fn(&str, &str) -> Progress>(
    players: &[u8],
    metadata: &Readings,
    read: &F,
) -> (snapshot: Result<MediaSnapshot, SessionError>)
    requires
        can_meter(*read),
    ensures
        forall|meter: Meter| #[trigger]
            meters_by(*read, meter) ==> seen(snapshot) == players_of(
                observation_in(players@, metadata@, meter),
            ),
{
    match parse_observation(players, metadata, read) {
        Ok(observation) => Ok(observation.snapshot),
        Err(error) => Err(error),
    }
}

// ---------------------------------------------------------------------------
// Probing
// ---------------------------------------------------------------------------

pub open spec fn list_line() -> CommandView {
    command_line("playerctl"@, seq!["--list-all"@])
}

pub open spec fn metadata_format() -> Seq<char> {
    "{{playerName}}\\t{{title}}\\t{{artist}}\\t{{status}}\\t{{position}}\\t{{mpris:length}}\\t{{mpris:trackid}}"@
}

pub open spec fn metadata_line(name: Seq<char>) -> CommandView {
    command_line(
        "playerctl"@,
        seq!["--player"@, name, "metadata"@, "--format"@, metadata_format()],
    )
}

/// Whether the metadata of players is read.
pub open spec fn metadata_by(
    runs: Runs,
    names: Seq<Seq<char>>,
    metadata: Result<Seq<(Seq<char>, Seq<u8>)>, Fault>,
) -> bool {
    read_by(
        runs,
        names,
        |name: Seq<char>| name,
        |name: Seq<char>| metadata_line(name),
        metadata,
    )
}

/// Whether the players are read: what comes of the programs leads to them.
pub open spec fn observation_by(
    runs: Runs,
    meter: Meter,
    observation: Result<ObservationView, Fault>,
) -> bool {
    leads(
        runs,
        list_line(),
        observation,
        |players: Seq<u8>| described_by(runs, meter, players, observation),
    )
}

/// Whether the metadata of the players that are listed is read.
pub open spec fn described_by(
    runs: Runs,
    meter: Meter,
    players: Seq<u8>,
    observation: Result<ObservationView, Fault>,
) -> bool {
    match names_in(players) {
        Err(fault) => observation == Err::<ObservationView, Fault>(fault),
        Ok(names) => exists|metadata: Result<Seq<(Seq<char>, Seq<u8>)>, Fault>| #[trigger]
            metadata_by(runs, names, metadata) && observation == match metadata {
                Ok(metadata) => observation_in(players, metadata, meter),
                Err(fault) => Err(fault),
            },
    }
}

/// The programs that read the players.
pub open spec fn reading_lines() -> spec_fn(CommandView) -> bool {
    |line: CommandView|
        line == list_line() || exists|name: Seq<char>| line == #[trigger] metadata_line(name)
}

#[verifier::loop_isolation(false)]
fn read_metadata<R: Fn(&CommandSpec) -> Run>(runner: &R, names: &Vec<Vec<char>>) -> (metadata:
    Result<Readings, SessionError>)
    requires
        grants_all(*runner, reading_lines()),
    ensures
        metadata_by(runs_of(*runner), pieces(names@), seen(metadata)),
{
    let ghost all = pieces(names@);
    let mut metadata = Readings::new();
    for i in 0..names.len()
        invariant
            metadata@.len() == i,
            forall|j: int|
                0 <= j < i ==> (#[trigger] metadata@[j]).0 == all[j] && came_of(
                    runs_of(*runner),
                    metadata_line(all[j]),
                    Ok::<Seq<u8>, Fault>(metadata@[j].1),
                ),
    {
        let name = string_of(names[i].as_slice());
        let spec = CommandSpec::new("playerctl").arg("--player").arg(name.as_str()).arg(
            "metadata",
        ).arg("--format").arg(
            "{{playerName}}\\t{{title}}\\t{{artist}}\\t{{status}}\\t{{position}}\\t{{mpris:length}}\\t{{mpris:trackid}}",
        );
        assert(spec@.args =~= metadata_line(name@).args);
        assert(all[i as int] == name@);
        let output = run(runner, spec);
        match output {
            Ok(output) => metadata.insert(name, output),
            Err(error) => {
                assert forall|j: int| 0 <= j < i implies succeeded(
                    runs_of(*runner),
                    metadata_line(#[trigger] all[j]),
                ) by {
                    assert(metadata@[j].0 == all[j]);
                }
                assert(came_of(
                    runs_of(*runner),
                    metadata_line(all[i as int]),
                    Err::<Seq<u8>, Fault>(fault_of(error)),
                ));
                return Err(error);
            },
        }
    }
    assert(all.len() == names@.len());
    Ok(metadata)
}

fn probe_observation<R: Fn(&CommandSpec) -> Run, F: Fn(&str, &str) -> Progress>(
    runner: &R,
    read: &F,
) -> (observation: Result<MediaObservation, SessionError>)
    requires
        grants_all(*runner, reading_lines()),
        can_meter(*read),
    ensures
        forall|meter: Meter| #[trigger]
            meters_by(*read, meter) ==> observation_by(runs_of(*runner), meter, seen(observation)),
        observation is Ok ==> in_step(observation->Ok_0),
{
    let spec = CommandSpec::new("playerctl").arg("--list-all");
    assert(spec@.args =~= seq!["--list-all"@]);
    let players = match run(runner, spec) {
        Ok(players) => players,
        Err(error) => return Err(error),
    };
    let names = match player_names(players.as_slice()) {
        Ok(names) => names,
        Err(error) => return Err(error),
    };
    let metadata = read_metadata(runner, &names);
    let ghost described = seen(metadata);
    let observation = match metadata {
        Ok(metadata) => parse_observation(players.as_slice(), &metadata, read),
        Err(error) => Err(error),
    };
    proof {
        assert forall|meter: Meter| #[trigger] meters_by(*read, meter) implies observation_by(
            runs_of(*runner),
            meter,
            seen(observation),
        ) by {
            assert(metadata_by(runs_of(*runner), pieces(names@), described));
            assert(described_by(runs_of(*runner), meter, players@, seen(observation)));
        }
    }
    observation
}

pub open spec fn snapshot_by(
    runs: Runs,
    meter: Meter,
    snapshot: Result<MediaView, Fault>,
) -> bool {
    exists|observation: Result<ObservationView, Fault>| #[trigger]
        observation_by(runs, meter, observation) && snapshot == players_of(observation)
}

/// Reads the players.
pub fn probe<R: Fn(&CommandSpec) -> Run, F: Fn(&str, &str) -> Progress>(runner: &R, read: &F) -> (snapshot:
    Result<MediaSnapshot, SessionError>)
    requires
        grants_all(*runner, reading_lines()),
        can_meter(*read),
    ensures
        forall|meter: Meter| #[trigger]
            meters_by(*read, meter) ==> snapshot_by(runs_of(*runner), meter, seen(snapshot)),
{
    match probe_observation(runner, read) {
        Ok(observation) => Ok(observation.snapshot),
        Err(error) => Err(error),
    }
}

// ---------------------------------------------------------------------------
// Steering
// ---------------------------------------------------------------------------

/// The place of the first player with an identifier, or the number of players.
pub open spec fn player_place(players: Seq<PlayerView>, id: Seq<char>) -> int
    decreases players.len(),
{
    if players.len() == 0 || players[0].id == id {
        0
    } else {
        1 + player_place(players.skip(1), id)
    }
}

fn find_player(players: &Vec<MediaPlayer>, id: &str) -> (at: usize)
    ensures
        at == player_place(views(players@), id@),
        at <= players@.len(),
{
    let ghost all = views(players@);
    assert(all.skip(0) =~= all);
    let mut at: usize = 0;
    while at < players.len()
        invariant
            at <= players@.len(),
            all == views(players@),
            player_place(all, id@) == at + player_place(all.skip(at as int), id@),
        decreases players.len() - at,
    {
        assert(all.skip(at as int)[0] == players@[at as int]@);
        assert(all.skip(at as int).skip(1) =~= all.skip(at + 1));
        if same_text(players[at].id.as_str(), id) {
            return at;
        }
        at = at + 1;
    }
    assert(all.len() == players@.len());
    at
}

/// Whether the players after a command are as it would leave them: another state
/// of play, or another track where both are known.
pub open spec fn transported(
    before: ObservationView,
    after: ObservationView,
    id: Seq<char>,
    transport: MediaTransport,
) -> bool {
    let old = player_place(before.players, id);
    let new = player_place(after.players, id);
    match transport {
        MediaTransport::PlayPause => before.players[old].playing != after.players[new].playing,
        _ => {
            &&& before.tracks[old] is Some
            &&& after.tracks[new] is Some
            &&& before.tracks[old] != after.tracks[new]
        },
    }
}

/// The players after a command, if they are as it would leave them.
pub open spec fn confirmation(
    before: ObservationView,
    after: ObservationView,
    id: Seq<char>,
    transport: MediaTransport,
) -> Result<MediaView, Fault> {
    if player_place(after.players, id) >= after.players.len() {
        Err((ErrorKind::Other, "MPRIS readback omitted the targeted player"@))
    } else if transported(before, after, id, transport) {
        Ok(MediaView { players: after.players })
    } else {
        Err((ErrorKind::Other, "MPRIS readback did not confirm the requested transport"@))
    }
}

/// Compares the players after a command with what it would leave.
pub fn confirm(
    before: &MediaObservation,
    after: MediaObservation,
    id: &str,
    transport: MediaTransport,
) -> (snapshot: Result<MediaSnapshot, SessionError>)
    requires
        in_step(*before),
        in_step(after),
        player_place(before@.players, id@) < before@.players.len(),
    ensures
        seen(snapshot) == confirmation(before@, after@, id@, transport),
{
    let old: usize = find_player(&before.snapshot.players, id);
    let new: usize = find_player(&after.snapshot.players, id);
    assert(before@.players.len() == before.snapshot.players@.len());
    assert(before@.tracks.len() == before.track_ids@.len());
    assert(after@.players.len() == after.snapshot.players@.len());
    assert(after@.tracks.len() == after.track_ids@.len());
    if new >= after.snapshot.players.len() {
        return Err(
            SessionError::new(ErrorKind::Other, "MPRIS readback omitted the targeted player"),
        );
    }
    assert(before@.players[old as int] == before.snapshot.players@[old as int]@);
    assert(after@.players[new as int] == after.snapshot.players@[new as int]@);
    assert(before@.tracks[old as int] == optional_text(before.track_ids@[old as int]));
    assert(after@.tracks[new as int] == optional_text(after.track_ids@[new as int]));
    let confirmed = match transport {
        MediaTransport::PlayPause => before.snapshot.players[old].playing
            != after.snapshot.players[new].playing,
        _ => before.track_ids[old].is_some() && after.track_ids[new].is_some() && !same_optional(
            &before.track_ids[old],
            &after.track_ids[new],
        ),
    };
    if !confirmed {
        return Err(
            SessionError::new(
                ErrorKind::Other,
                "MPRIS readback did not confirm the requested transport",
            ),
        );
    }
    Ok(after.snapshot)
}

/// Whether a player is steered: the players are read, the program that steers it is
/// run, and the players are read again.
pub open spec fn transport_by(
    prior: Runs,
    changes: Runs,
    runs: Runs,
    meter: Meter,
    id: Seq<char>,
    transport: MediaTransport,
    result: Result<MediaView, Fault>,
) -> bool {
    exists|before: Result<ObservationView, Fault>| #[trigger]
        observation_by(prior, meter, before) && match before {
            Err(fault) => result == Err::<MediaView, Fault>(fault),
            Ok(before) => if player_place(before.players, id) >= before.players.len() {
                result == Err::<MediaView, Fault>(
                    (ErrorKind::Other, "MPRIS pre-state omitted the targeted player"@),
                )
            } else {
                steered_by(changes, runs, meter, id, transport, before, result)
            },
        }
}

/// Whether a player that was there before is steered.
pub open spec fn steered_by(
    changes: Runs,
    runs: Runs,
    meter: Meter,
    id: Seq<char>,
    transport: MediaTransport,
    before: ObservationView,
    result: Result<MediaView, Fault>,
) -> bool {
    match transport_line(id, transport) {
        Err(fault) => result == Err::<MediaView, Fault>(fault),
        Ok(line) => leads(
            changes,
            line,
            result,
            |_output: Seq<u8>|
                exists|after: Result<ObservationView, Fault>| #[trigger]
                    observation_by(runs, meter, after) && result == match after {
                        Ok(after) => confirmation(before, after, id, transport),
                        Err(fault) => Err(fault),
                    },
        ),
    }
}

/// Whether a command is carried out.
pub open spec fn mutation_by(
    prior: Runs,
    changes: Runs,
    runs: Runs,
    meter: Meter,
    command: MediaCommand,
    result: Result<MediaView, Fault>,
) -> bool {
    let MediaCommand::Transport { player_id, transport } = command;
    transport_by(prior, changes, runs, meter, player_id.0@, transport, result)
}

/// Whether a player can have been seen among the players.
pub open spec fn player_seen(runs: Runs, meter: Meter, id: Seq<char>) -> bool {
    exists|seen: ObservationView| #[trigger]
        observation_by(runs, meter, Ok::<ObservationView, Fault>(seen)) && player_place(
            seen.players,
            id,
        ) < seen.players.len()
}

/// Whether a player can have been seen to be the only one.
pub open spec fn only_player_seen(runs: Runs, meter: Meter, id: Seq<char>) -> bool {
    exists|seen: MediaView| #[trigger]
        snapshot_by(runs, meter, Ok::<MediaView, Fault>(seen)) && seen.players.len() == 1
            && seen.players[0].id == id
}

/// Whether a player may be steered, once, when it was seen before, and the players
/// may be read anew when it was steered, and not before.
pub open spec fn may_steer<
    P: FnOnce(&CommandSpec) -> Run,
    C: FnOnce(&CommandSpec) -> Run,
    R: FnOnce(&CommandSpec) -> Run,
    F: Fn(&str, &str) -> Progress,
>(prior: P, change: C, runner: R, read: F, id: Seq<char>, transport: MediaTransport) -> bool {
    (forall|meter: Meter| #[trigger]
        meters_by(read, meter) ==> player_seen(runs_of(prior), meter, id)) ==> may_change(
        change,
        runner,
        transport_line(id, transport),
        reading_lines(),
    )
}

/// Whether the only player may be steered.
pub open spec fn may_steer_only<
    P: FnOnce(&CommandSpec) -> Run,
    C: FnOnce(&CommandSpec) -> Run,
    R: FnOnce(&CommandSpec) -> Run,
    F: Fn(&str, &str) -> Progress,
>(prior: P, change: C, runner: R, read: F, id: Seq<char>, transport: MediaTransport) -> bool {
    (forall|meter: Meter| #[trigger]
        meters_by(read, meter) ==> only_player_seen(runs_of(prior), meter, id)) ==> may_steer(
        prior,
        change,
        runner,
        read,
        id,
        transport,
    )
}

/// Reads the players, steers one of them, once, and then reads the players again.
/// The command succeeds only if they confirm it. What reads the players before the
/// command does not read them after it.
pub fn mutate<
    P: Fn(&CommandSpec) -> Run,
    C: FnOnce(&CommandSpec) -> Run,
    R: Fn(&CommandSpec) -> Run,
    F: Fn(&str, &str) -> Progress,
>(prior: &P, change: C, runner: &R, read: &F, command: &MediaCommand) -> (snapshot: Result<
    MediaSnapshot,
    SessionError,
>)
    requires
        ({
            let MediaCommand::Transport { player_id, transport } = *command;
            may_steer(*prior, change, *runner, *read, player_id.0@, transport)
        }),
        grants_all(*prior, reading_lines()),
        can_meter(*read),
    ensures
        forall|meter: Meter| #[trigger]
            meters_by(*read, meter) ==> mutation_by(
                runs_of(*prior),
                runs_of(change),
                runs_of(*runner),
                meter,
                *command,
                seen(snapshot),
            ),
{
    let MediaCommand::Transport { player_id, transport } = command;
    let before = match probe_observation(prior, read) {
        Ok(before) => before,
        Err(error) => return Err(error),
    };
    assert(before@.players.len() == before.snapshot.players@.len());
    if find_player(&before.snapshot.players, player_id.as_str()) >= before.snapshot.players.len() {
        return Err(
            SessionError::new(ErrorKind::Other, "MPRIS pre-state omitted the targeted player"),
        );
    }
    let spec = match mutation_spec(command) {
        Ok(spec) => spec,
        Err(error) => return Err(error),
    };
    proof {
        assert forall|meter: Meter| #[trigger] meters_by(*read, meter) implies player_seen(
            runs_of(*prior),
            meter,
            player_id.0@,
        ) by {
            assert(observation_by(
                runs_of(*prior),
                meter,
                Ok::<ObservationView, Fault>(before@),
            ));
        }
    }
    match run_once(change, spec) {
        Ok(_) => {},
        Err(error) => return Err(error),
    }
    let after = match probe_observation(runner, read) {
        Ok(after) => after,
        Err(error) => return Err(error),
    };
    confirm(&before, after, player_id.as_str(), *transport)
}

/// Whether the only player there is is steered.
pub open spec fn legacy_by(
    prior: Runs,
    changes: Runs,
    runs: Runs,
    meter: Meter,
    transport: MediaTransport,
    result: Result<MediaView, Fault>,
) -> bool {
    exists|before: Result<MediaView, Fault>| #[trigger]
        snapshot_by(prior, meter, before) && match before {
            Err(fault) => result == Err::<MediaView, Fault>(fault),
            Ok(before) => if before.players.len() != 1 {
                result == refused::<MediaView>(
                    "legacy media action requires exactly one MPRIS player"@,
                )
            } else {
                transport_by(
                    prior,
                    changes,
                    runs,
                    meter,
                    before.players[0].id,
                    transport,
                    result,
                )
            },
        }
}

/// Steers the only player there is.
pub fn mutate_legacy<
    P: Fn(&CommandSpec) -> Run,
    C: FnOnce(&CommandSpec) -> Run,
    R: Fn(&CommandSpec) -> Run,
    F: Fn(&str, &str) -> Progress,
>(prior: &P, change: C, runner: &R, read: &F, transport: MediaTransport) -> (snapshot: Result<
    MediaSnapshot,
    SessionError,
>)
    requires
        grants_all(*prior, reading_lines()),
        forall|id: Seq<char>| #[trigger]
            may_steer_only(*prior, change, *runner, *read, id, transport),
        can_meter(*read),
    ensures
        forall|meter: Meter| #[trigger]
            meters_by(*read, meter) ==> legacy_by(
                runs_of(*prior),
                runs_of(change),
                runs_of(*runner),
                meter,
                transport,
                seen(snapshot),
            ),
{
    let before = match probe(prior, read) {
        Ok(before) => before,
        Err(error) => return Err(error),
    };
    assert(before@.players.len() == before.players@.len());
    if before.players.len() != 1 {
        return invalid_input("legacy media action requires exactly one MPRIS player");
    }
    assert(before@.players[0] == before.players@[0]@);
    let id = before.players[0].id.clone();
    proof {
        assert forall|meter: Meter| #[trigger] meters_by(*read, meter) implies only_player_seen(
            runs_of(*prior),
            meter,
            id@,
        ) by {
            assert(snapshot_by(runs_of(*prior), meter, Ok::<MediaView, Fault>(before@)));
        }
        assert(may_steer_only(*prior, change, *runner, *read, id@, transport));
    }
    let command = MediaCommand::Transport { player_id: StableId(id), transport };
    mutate(prior, change, runner, read, &command)
}

/// A command that succeeds was accepted by the program that steers the player, and
/// was confirmed by what the programs that read the players gave, those that come
/// before it and those that come after it.
pub proof fn a_command_is_confirmed(
    prior: Runs,
    changes: Runs,
    runs: Runs,
    meter: Meter,
    id: Seq<char>,
    transport: MediaTransport,
    media: MediaView,
)
    requires
        transport_by(prior, changes, runs, meter, id, transport, Ok::<MediaView, Fault>(media)),
    ensures
        transport_line(id, transport) is Ok,
        succeeded(changes, transport_line(id, transport)->Ok_0),
        exists|before: ObservationView, after: ObservationView| #[trigger]
            transported(before, after, id, transport) && after.players == media.players
                && observation_by(prior, meter, Ok::<ObservationView, Fault>(before))
                && observation_by(runs, meter, Ok::<ObservationView, Fault>(after)),
{
    let result = Ok::<MediaView, Fault>(media);
    let before = choose|before: Result<ObservationView, Fault>| #[trigger]
        observation_by(prior, meter, before) && before is Ok && steered_by(
            changes,
            runs,
            meter,
            id,
            transport,
            before->Ok_0,
            result,
        );
    let line = transport_line(id, transport)->Ok_0;
    let outcome = choose|outcome: Result<Seq<u8>, Fault>| #[trigger]
        came_of(changes, line, outcome) && outcome is Ok;
    assert(came_of(changes, line, Ok::<Seq<u8>, Fault>(outcome->Ok_0)));
    let after = choose|after: Result<ObservationView, Fault>| #[trigger]
        observation_by(runs, meter, after) && result == match after {
            Ok(after) => confirmation(before->Ok_0, after, id, transport),
            Err(fault) => Err(fault),
        };
    assert(transported(before->Ok_0, after->Ok_0, id, transport));
}

/// A player is steered by its own name and by the word for what was asked.
pub proof fn players_are_steered_in_these_words(player_id: StableId, name: Seq<char>)
    requires
        is_bus_name(name),
        player_id.0@ == "mpris:"@ + name,
    ensures
        mutation_line(
            MediaCommand::Transport { player_id, transport: MediaTransport::PlayPause },
        ) == Ok::<CommandView, Fault>(
            CommandView {
                program: "playerctl"@,
                args: seq!["--player"@, name, "play-pause"@],
                timeout: Some(5_000),
            },
        ),
        mutation_line(MediaCommand::Transport { player_id, transport: MediaTransport::Next })
            == Ok::<CommandView, Fault>(
            CommandView {
                program: "playerctl"@,
                args: seq!["--player"@, name, "next"@],
                timeout: Some(5_000),
            },
        ),
        mutation_line(MediaCommand::Transport { player_id, transport: MediaTransport::Previous })
            == Ok::<CommandView, Fault>(
            CommandView {
                program: "playerctl"@,
                args: seq!["--player"@, name, "previous"@],
                timeout: Some(5_000),
            },
        ),
{
    player_identifiers_lead_back(name);
}

/// A player plays where it says `Playing` and does not where it says `Paused` or
/// `Stopped`; of any other word nothing is known.
pub proof fn playback_is_read_as_it_is_told(state: Seq<char>)
    ensures
        playback("Playing"@) == Ok::<bool, Fault>(true),
        playback("Paused"@) == Ok::<bool, Fault>(false),
        playback("Stopped"@) == Ok::<bool, Fault>(false),
        playback(state) == Ok::<bool, Fault>(true) <==> state == "Playing"@,
        playback(state) == Ok::<bool, Fault>(false) <==> state == "Paused"@ || state
            == "Stopped"@,
{
    reveal_strlit("Playing");
    reveal_strlit("Paused");
    reveal_strlit("Stopped");
    assert("Playing"@[1] == 'l');
    assert("Paused"@[1] == 'a');
    assert("Stopped"@[1] == 't');
}

/// A player is described by its own fields, in their order: who it is, the title, the
/// artist, whether it plays, and how far it is.
pub proof fn players_are_read_as_they_are_told(
    found: ObservationView,
    name: Seq<char>,
    metadata: Seq<(Seq<char>, Seq<u8>)>,
    meter: Meter,
    next: ObservationView,
)
    requires
        with_metadata(found, name, metadata, meter) == Ok::<ObservationView, Fault>(next),
    ensures
        next.players.drop_last() == found.players,
        next.tracks.drop_last() == found.tracks,
        ({
            let text = vstd::utf8::decode_utf8(reading(metadata, name)->Some_0);
            let fields = split_limited(trim_end(text), '\t', 7);
            let player = next.players.last();
            &&& player.id == "mpris:"@ + name
            &&& player.identity == fields[0]
            &&& player.title == fields[1]
            &&& player.artist == fields[2]
            &&& player.playing <==> fields[3] == "Playing"@
            &&& meter(fields[4], fields[5]) == Progress::Level(player.progress)
            &&& fields.len() == 7 && fields[6].len() > 0 ==> next.tracks.last() == Some(fields[6])
            &&& fields.len() < 7 || fields[6].len() == 0 ==> next.tracks.last() is None
        }),
{
    playback_is_read_as_it_is_told(
        split_limited(
            trim_end(vstd::utf8::decode_utf8(reading(metadata, name)->Some_0)),
            '\t',
            7,
        )[3],
    );
    split_limited_is_limited(
        trim_end(vstd::utf8::decode_utf8(reading(metadata, name)->Some_0)),
        '\t',
        7,
    );
    assert(next.players.drop_last() =~= found.players);
    assert(next.tracks.drop_last() =~= found.tracks);
}

proof fn split_limited_is_limited(s: Seq<char>, separator: char, limit: nat)
    requires
        limit > 0,
    ensures
        split_limited(s, separator, limit).len() <= limit,
    decreases limit,
{
    reveal_with_fuel(split_limited, 2);
    let at = crate::text::first_index(s, separator);
    if limit > 1 && at < s.len() {
        split_limited_is_limited(s.skip(at + 1), separator, (limit - 1) as nat);
    }
}

/// What confirms a command: the player that was meant changed whether it plays, or went
/// on to another track where both are known.
pub proof fn commands_are_confirmed_by_what_was_asked(
    before: ObservationView,
    after: ObservationView,
    id: Seq<char>,
    old: int,
    new: int,
)
    requires
        0 <= old < before.players.len(),
        before.players[old].id == id,
        forall|i: int| 0 <= i < old ==> (#[trigger] before.players[i]).id != id,
        0 <= new < after.players.len(),
        after.players[new].id == id,
        forall|i: int| 0 <= i < new ==> (#[trigger] after.players[i]).id != id,
    ensures
        confirmation(before, after, id, MediaTransport::PlayPause) is Ok
            <==> before.players[old].playing != after.players[new].playing,
        confirmation(before, after, id, MediaTransport::Next) is Ok <==> before.tracks[old] is Some
            && after.tracks[new] is Some && before.tracks[old] != after.tracks[new],
        confirmation(before, after, id, MediaTransport::Previous) is Ok
            <==> before.tracks[old] is Some && after.tracks[new] is Some && before.tracks[old]
            != after.tracks[new],
        confirmation(before, after, id, MediaTransport::PlayPause) matches Ok(media)
            ==> media.players == after.players,
{
    the_first_player_with_an_identifier(before.players, id, old);
    the_first_player_with_an_identifier(after.players, id, new);
}

/// A player is found at its first place.
pub proof fn the_first_player_with_an_identifier(players: Seq<PlayerView>, id: Seq<char>, at: int)
    requires
        0 <= at < players.len(),
        players[at].id == id,
        forall|i: int| 0 <= i < at ==> (#[trigger] players[i]).id != id,
    ensures
        player_place(players, id) == at,
    decreases players.len(),
{
    if at > 0 {
        assert(players[0].id != id);
        let rest = players.skip(1);
        assert forall|i: int| 0 <= i < at - 1 implies (#[trigger] rest[i]).id != id by {
            assert(rest[i] == players[i + 1]);
        }
        the_first_player_with_an_identifier(rest, id, at - 1);
    }
}

} // verus!

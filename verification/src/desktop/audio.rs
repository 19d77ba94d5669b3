//! Audio, read and changed with `wpctl`.

use vstd::prelude::*;

use crate::command::{
    came_of, command_line, grants_all, leads, limited, may_change, run, run_once, runs_of,
    succeeded, CommandSpec, CommandView, Run, Runs,
};
use crate::error::{
    fault_of, invalid, invalid_input, malformed, refused, seen, ErrorKind, Fault, SessionError,
};
use crate::rows::{
    canonical_number, folded, folded_step, read_by, read_number, read_text, reading, text_in,
    views, views_of_push, Readings,
};
use crate::text::{
    after_prefix, chars_of, contains_text, copy_chars, cut_before, before_part, find_char,
    first_index, first_index_facts, has_part, is_text, lines, lines_of, pieces, prefixed,
    same_text, string_of, strip_prefix, trim, trim_chars, words, words_of,
};

use super::commands::SystemMutation;
use super::domain::{AudioNode, AudioNodeKind, AudioSnapshot, AudioStream, Level, StableId};
use super::fraction::{
    can_read, can_tell, near_by, reads_by, Nearness, Number, Reader, RequestedLevel,
};

verus! {

/// The longest that a change may take, in milliseconds.
pub const AUDIO_TIMEOUT: u64 = 5_000;

// ---------------------------------------------------------------------------
// Identifiers
// ---------------------------------------------------------------------------

pub open spec fn audio_number(s: Seq<char>) -> Result<Seq<char>, Fault> {
    canonical_number(s, "invalid numeric audio ID"@, "audio ID is not canonical"@)
}

fn numeric(s: &[char]) -> (number: Result<String, SessionError>)
    ensures
        seen(number) == audio_number(s@),
{
    read_number(s, "invalid numeric audio ID", "audio ID is not canonical")
}

/// The identifier of a node or a stream: a prefix and its number.
pub open spec fn audio_identifier(prefix: Seq<char>, s: Seq<char>) -> Result<Seq<char>, Fault> {
    match audio_number(s) {
        Ok(number) => Ok(prefix + number),
        Err(fault) => Err(fault),
    }
}

fn make_id(prefix: &str, s: &[char]) -> (id: Result<String, SessionError>)
    ensures
        seen(id) == audio_identifier(prefix@, s@),
{
    match numeric(s) {
        Ok(number) => Ok(prefixed(prefix, chars_of(number.as_str()).as_slice())),
        Err(error) => Err(error),
    }
}

pub open spec fn node_identifier(s: Seq<char>) -> Result<Seq<char>, Fault> {
    audio_identifier("audio-node:"@, s)
}

pub open spec fn stream_identifier(s: Seq<char>) -> Result<Seq<char>, Fault> {
    audio_identifier("audio-stream:"@, s)
}

pub fn node_id(value: &[char]) -> (id: Result<String, SessionError>)
    ensures
        seen(id) == node_identifier(value@),
{
    make_id("audio-node:", value)
}

pub fn stream_id(value: &[char]) -> (id: Result<String, SessionError>)
    ensures
        seen(id) == stream_identifier(value@),
{
    make_id("audio-stream:", value)
}

/// The number in an identifier.
pub open spec fn number_in(prefix: Seq<char>, id: Seq<char>) -> Result<Seq<char>, Fault> {
    match after_prefix(id, prefix) {
        Some(number) => audio_number(number),
        None => refused("invalid audio ID"@),
    }
}

fn numeric_id(prefix: &str, id: &StableId) -> (number: Result<String, SessionError>)
    ensures
        seen(number) == number_in(prefix@, id.0@),
{
    let letters = chars_of(id.as_str());
    match strip_prefix(letters.as_slice(), prefix) {
        Some(number) => numeric(number),
        None => invalid_input("invalid audio ID"),
    }
}

/// An identifier leads back to its number.
pub proof fn audio_identifiers_lead_back(prefix: Seq<char>, s: Seq<char>)
    requires
        audio_identifier(prefix, s) is Ok,
    ensures
        number_in(prefix, audio_identifier(prefix, s)->Ok_0) == Ok::<Seq<char>, Fault>(s),
{
    let id = audio_identifier(prefix, s)->Ok_0;
    assert(id.take(prefix.len() as int) =~= prefix);
    assert(id.skip(prefix.len() as int) =~= s);
}

// ---------------------------------------------------------------------------
// Commands
// ---------------------------------------------------------------------------

pub enum AudioCommand {
    SetDefaultNode { node_id: StableId },
    SetNodeVolume { node_id: StableId, level: RequestedLevel },
    SetNodeMuted { node_id: StableId, muted: bool },
    SetStreamVolume { stream_id: StableId, level: RequestedLevel },
    SetStreamMuted { stream_id: StableId, muted: bool },
}

pub open spec fn one_or_zero(value: bool) -> Seq<char> {
    if value {
        "1"@
    } else {
        "0"@
    }
}

fn boolean(value: bool) -> (text: &'static str)
    ensures
        text@ == one_or_zero(value),
{
    if value {
        "1"
    } else {
        "0"
    }
}

pub open spec fn spelled_level(level: RequestedLevel) -> Result<Seq<char>, Fault> {
    if level.normalized {
        Ok(level.text@)
    } else {
        refused("audio level is not normalized"@)
    }
}

pub open spec fn volume_line(
    prefix: Seq<char>,
    id: Seq<char>,
    level: RequestedLevel,
) -> Result<CommandView, Fault> {
    match number_in(prefix, id) {
        Err(fault) => Err(fault),
        Ok(number) => match spelled_level(level) {
            Err(fault) => Err(fault),
            Ok(text) => Ok(limited("wpctl"@, seq!["set-volume"@, number, text], AUDIO_TIMEOUT)),
        },
    }
}

pub open spec fn mute_line(prefix: Seq<char>, id: Seq<char>, muted: bool) -> Result<
    CommandView,
    Fault,
> {
    match number_in(prefix, id) {
        Err(fault) => Err(fault),
        Ok(number) => Ok(
            limited("wpctl"@, seq!["set-mute"@, number, one_or_zero(muted)], AUDIO_TIMEOUT),
        ),
    }
}

/// The command line that makes a change.
pub open spec fn mutation_line(command: AudioCommand) -> Result<CommandView, Fault> {
    match command {
        AudioCommand::SetDefaultNode { node_id } => match number_in(
            "audio-node:"@,
            node_id.0@,
        ) {
            Err(fault) => Err(fault),
            Ok(number) => Ok(limited("wpctl"@, seq!["set-default"@, number], AUDIO_TIMEOUT)),
        },
        AudioCommand::SetNodeVolume { node_id, level } => volume_line(
            "audio-node:"@,
            node_id.0@,
            level,
        ),
        AudioCommand::SetNodeMuted { node_id, muted } => mute_line(
            "audio-node:"@,
            node_id.0@,
            muted,
        ),
        AudioCommand::SetStreamVolume { stream_id, level } => volume_line(
            "audio-stream:"@,
            stream_id.0@,
            level,
        ),
        AudioCommand::SetStreamMuted { stream_id, muted } => mute_line(
            "audio-stream:"@,
            stream_id.0@,
            muted,
        ),
    }
}

fn volume_command(prefix: &str, id: &StableId, level: &RequestedLevel) -> (spec: Result<
    CommandSpec,
    SessionError,
>)
    ensures
        seen(spec) == volume_line(prefix@, id.0@, *level),
{
    let number = match numeric_id(prefix, id) {
        Ok(number) => number,
        Err(error) => return Err(error),
    };
    if !level.normalized {
        return invalid_input("audio level is not normalized");
    }
    let spec = CommandSpec::new("wpctl").within(AUDIO_TIMEOUT).arg("set-volume").arg(
        number.as_str(),
    ).arg(level.text.as_str());
    assert(spec@.args =~= seq!["set-volume"@, number@, level.text@]);
    Ok(spec)
}

fn mute_command(prefix: &str, id: &StableId, muted: bool) -> (spec: Result<
    CommandSpec,
    SessionError,
>)
    ensures
        seen(spec) == mute_line(prefix@, id.0@, muted),
{
    let number = match numeric_id(prefix, id) {
        Ok(number) => number,
        Err(error) => return Err(error),
    };
    let spec = CommandSpec::new("wpctl").within(AUDIO_TIMEOUT).arg("set-mute").arg(
        number.as_str(),
    ).arg(boolean(muted));
    assert(spec@.args =~= seq!["set-mute"@, number@, one_or_zero(muted)]);
    Ok(spec)
}

pub fn mutation_spec(command: &AudioCommand) -> (spec: Result<CommandSpec, SessionError>)
    ensures
        seen(spec) == mutation_line(*command),
{
    match command {
        AudioCommand::SetDefaultNode { node_id } => match numeric_id("audio-node:", node_id) {
            Ok(number) => {
                let spec = CommandSpec::new("wpctl").within(AUDIO_TIMEOUT).arg("set-default").arg(
                    number.as_str(),
                );
                assert(spec@.args =~= seq!["set-default"@, number@]);
                Ok(spec)
            },
            Err(error) => Err(error),
        },
        AudioCommand::SetNodeVolume { node_id, level } => volume_command(
            "audio-node:",
            node_id,
            level,
        ),
        AudioCommand::SetNodeMuted { node_id, muted } => mute_command(
            "audio-node:",
            node_id,
            *muted,
        ),
        AudioCommand::SetStreamVolume { stream_id, level } => volume_command(
            "audio-stream:",
            stream_id,
            level,
        ),
        AudioCommand::SetStreamMuted { stream_id, muted } => mute_command(
            "audio-stream:",
            stream_id,
            *muted,
        ),
    }
}

// ---------------------------------------------------------------------------
// Reading
// ---------------------------------------------------------------------------

#[derive(Debug, Clone, Copy, PartialEq, Eq, Structural)]
pub enum RowKind {
    Output,
    Input,
    Stream,
}

/// A node or a stream in the list of the program.
pub struct Row {
    pub id: Vec<char>,
    pub name: String,
    pub kind: RowKind,
    pub is_default: bool,
}

pub struct RowView {
    pub id: Seq<char>,
    pub name: Seq<char>,
    pub kind: RowKind,
    pub is_default: bool,
}

impl View for Row {
    type V = RowView;

    open spec fn view(&self) -> RowView {
        RowView { id: self.id@, name: self.name@, kind: self.kind, is_default: self.is_default }
    }
}

/// The rows read so far, and the section that is being read.
pub struct ListView {
    pub section: Option<RowKind>,
    pub rows: Seq<RowView>,
}

struct List {
    section: Option<RowKind>,
    rows: Vec<Row>,
}

impl View for List {
    type V = ListView;

    closed spec fn view(&self) -> ListView {
        ListView { section: self.section, rows: views(self.rows@) }
    }
}

/// The characters that draw the tree in the list.
pub open spec fn is_branch(c: char) -> bool {
    c == ' ' || c == '\u{2502}' || c == '\u{251c}' || c == '\u{2514}' || c == '\u{2500}'
}

/// A line without the tree.
pub open spec fn without_branches(s: Seq<char>) -> Seq<char>
    decreases s.len(),
{
    if s.len() > 0 && is_branch(s[0]) {
        without_branches(s.skip(1))
    } else {
        s
    }
}

/// A line without leading asterisks.
pub open spec fn without_stars(s: Seq<char>) -> Seq<char>
    decreases s.len(),
{
    if s.len() > 0 && s[0] == '*' {
        without_stars(s.skip(1))
    } else {
        s
    }
}

fn strip_branches(s: &[char]) -> (rest: &[char])
    ensures
        rest@ == without_branches(s@),
{
    let mut at: usize = 0;
    assert(s@.skip(0) =~= s@);
    while at < s.len() && (s[at] == ' ' || s[at] == '\u{2502}' || s[at] == '\u{251c}' || s[at]
        == '\u{2514}' || s[at] == '\u{2500}')
        invariant
            at <= s@.len(),
            without_branches(s@.skip(at as int)) == without_branches(s@),
        decreases s@.len() - at,
    {
        assert(s@.skip(at as int)[0] == s@[at as int]);
        assert(s@.skip(at as int).skip(1) =~= s@.skip(at + 1));
        at = at + 1;
    }
    let rest = vstd::slice::slice_subrange(s, at, s.len());
    assert(rest@ =~= s@.skip(at as int));
    rest
}

fn strip_stars(s: &[char]) -> (rest: &[char])
    ensures
        rest@ == without_stars(s@),
{
    let mut at: usize = 0;
    assert(s@.skip(0) =~= s@);
    while at < s.len() && s[at] == '*'
        invariant
            at <= s@.len(),
            without_stars(s@.skip(at as int)) == without_stars(s@),
        decreases s@.len() - at,
    {
        assert(s@.skip(at as int)[0] == s@[at as int]);
        assert(s@.skip(at as int).skip(1) =~= s@.skip(at + 1));
        at = at + 1;
    }
    let rest = vstd::slice::slice_subrange(s, at, s.len());
    assert(rest@ =~= s@.skip(at as int));
    rest
}

/// The section that a line heads: one that is read, another one, or none.
pub open spec fn heading(line: Seq<char>) -> Option<Option<RowKind>> {
    if line == "Sinks:"@ {
        Some(Some(RowKind::Output))
    } else if line == "Sources:"@ {
        Some(Some(RowKind::Input))
    } else if line == "Streams:"@ {
        Some(Some(RowKind::Stream))
    } else if line.len() > 0 && line.last() == ':' {
        Some(None)
    } else {
        None
    }
}

fn read_heading(line: &[char]) -> (head: Option<Option<RowKind>>)
    ensures
        head == heading(line@),
{
    if is_text(line, "Sinks:") {
        Some(Some(RowKind::Output))
    } else if is_text(line, "Sources:") {
        Some(Some(RowKind::Input))
    } else if is_text(line, "Streams:") {
        Some(Some(RowKind::Stream))
    } else if line.len() > 0 && line[line.len() - 1] == ':' {
        Some(None)
    } else {
        None
    }
}

/// What a row of a section adds: a number, a dot and a name, which ends before an
/// opening bracket.
pub open spec fn with_row(list: ListView, kind: RowKind, line: Seq<char>) -> Result<
    ListView,
    Fault,
> {
    let row = trim(without_stars(line));
    let dot = first_index(row, '.');
    if dot >= row.len() {
        Ok(list)
    } else {
        let id = trim(row.take(dot));
        let name = trim(before_part(row.skip(dot + 1), " ["@));
        match audio_number(id) {
            Err(fault) => Err(fault),
            Ok(_) => if name.len() == 0 {
                malformed("audio row name is empty"@)
            } else {
                Ok(
                    ListView {
                        section: list.section,
                        rows: list.rows.push(
                            RowView {
                                id,
                                name,
                                kind,
                                is_default: line.len() > 0 && line[0] == '*',
                            },
                        ),
                    },
                )
            },
        }
    }
}

/// What a line of the list adds.
pub open spec fn with_line(list: ListView, line: Seq<char>) -> Result<ListView, Fault> {
    let plain = without_branches(line);
    match heading(plain) {
        Some(section) => Ok(ListView { section, rows: list.rows }),
        None => match list.section {
            Some(kind) => if plain.len() == 0 {
                Ok(list)
            } else {
                with_row(list, kind, plain)
            },
            None => Ok(list),
        },
    }
}

pub open spec fn has_output(rows: Seq<RowView>) -> bool {
    exists|i: int| 0 <= i < rows.len() && (#[trigger] rows[i]).kind == RowKind::Output
}

/// The rows in the list of the program.
pub open spec fn rows_in(status: Seq<u8>) -> Result<Seq<RowView>, Fault> {
    match text_in(status, "wpctl output is not UTF-8"@) {
        Err(fault) => Err(fault),
        Ok(text) => match folded(
            lines(text),
            ListView { section: None, rows: Seq::empty() },
            |list: ListView, line: Seq<char>| with_line(list, line),
        ) {
            Err(fault) => Err(fault),
            Ok(list) => if has_output(list.rows) {
                Ok(list.rows)
            } else {
                malformed("wpctl omitted audio outputs"@)
            },
        },
    }
}

fn take_row(list: List, kind: RowKind, line: &[char]) -> (next: Result<List, SessionError>)
    ensures
        seen(next) == with_row(list@, kind, line@),
{
    let row = trim_chars(strip_stars(line));
    proof {
        first_index_facts(row@, '.');
    }
    let dot: usize = find_char(row, '.');
    if dot >= row.len() {
        return Ok(list);
    }
    let head = vstd::slice::slice_subrange(row, 0, dot);
    let tail = vstd::slice::slice_subrange(row, dot + 1, row.len());
    assert(head@ =~= row@.take(dot as int));
    assert(tail@ =~= row@.skip(dot + 1));
    let id = trim_chars(head);
    match numeric(id) {
        Ok(_) => {},
        Err(error) => return Err(error),
    }
    let label = cut_before(tail, " [");
    let name = trim_chars(label.as_slice());
    if name.len() == 0 {
        return invalid("audio row name is empty");
    }
    let new = Row {
        id: copy_chars(id),
        name: string_of(name),
        kind,
        is_default: line.len() > 0 && line[0] == '*',
    };
    let mut next = list;
    proof {
        views_of_push(next.rows@, new);
    }
    next.rows.push(new);
    Ok(next)
}

fn take_line(list: List, line: &[char]) -> (next: Result<List, SessionError>)
    ensures
        seen(next) == with_line(list@, line@),
{
    let plain = strip_branches(line);
    match read_heading(plain) {
        Some(section) => Ok(List { section, rows: list.rows }),
        None => match list.section {
            Some(kind) => if plain.len() == 0 {
                Ok(list)
            } else {
                take_row(list, kind, plain)
            },
            None => Ok(list),
        },
    }
}

pub fn parse_rows(status: &[u8]) -> (rows: Result<Vec<Row>, SessionError>)
    ensures
        match rows {
            Ok(rows) => rows_in(status@) == Ok::<Seq<RowView>, Fault>(views(rows@)),
            Err(error) => rows_in(status@) == Err::<Seq<RowView>, Fault>(
                (error.kind, error.message@),
            ),
        },
{
    let text = match read_text(status, "wpctl output is not UTF-8") {
        Ok(text) => text,
        Err(error) => return Err(error),
    };
    let written = lines_of(text.as_slice());
    let ghost all = lines(text@);
    let ghost step = |list: ListView, line: Seq<char>| with_line(list, line);
    let ghost start = ListView { section: None, rows: Seq::empty() };
    let mut list = List { section: None, rows: Vec::new() };
    assert(list@.rows =~= Seq::empty());
    assert(all.skip(0) =~= all);
    for i in 0..written.len()
        invariant
            all == pieces(written@),
            step == (|list: ListView, line: Seq<char>| with_line(list, line)),
            start == (ListView { section: None, rows: Seq::empty() }),
            text_in(status@, "wpctl output is not UTF-8"@) == Ok::<Seq<char>, Fault>(text@),
            all == lines(text@),
            folded(all.skip(i as int), list@, step) == folded(all, start, step),
    {
        proof {
            folded_step(all, i as int, list@, step);
            assert(all[i as int] == written@[i as int]@);
        }
        list = match take_line(list, written[i].as_slice()) {
            Ok(next) => next,
            Err(error) => return Err(error),
        };
    }
    assert(all.len() == written@.len());
    let rows = list.rows;
    for i in 0..rows.len()
        invariant
            rows == list.rows,
            rows_in(status@) == (if has_output(views(rows@)) {
                Ok::<Seq<RowView>, Fault>(views(rows@))
            } else {
                malformed("wpctl omitted audio outputs"@)
            }),
            forall|j: int| 0 <= j < i ==> (#[trigger] views(rows@)[j]).kind != RowKind::Output,
    {
        assert(views(rows@)[i as int] == rows@[i as int]@);
        if rows[i].kind == RowKind::Output {
            return Ok(rows);
        }
    }
    invalid("wpctl omitted audio outputs")
}

/// A volume, and whether it is muted.
pub open spec fn volume_in(bytes: Seq<u8>, reader: Reader) -> Result<(Level, bool), Fault> {
    match text_in(bytes, "volume output is not UTF-8"@) {
        Err(fault) => Err(fault),
        Ok(text) => {
            let fields = words(text, false);
            if fields.len() == 0 || fields[0] != "Volume:"@ {
                malformed("volume output is malformed"@)
            } else if fields.len() == 1 {
                malformed("volume value omitted"@)
            } else {
                match reader(fields[1]) {
                    Number::NotNumeric => malformed("volume is not numeric"@),
                    Number::OutOfRange => malformed("volume is not normalized"@),
                    Number::Level(level) => Ok((level, has_part(text, "[MUTED]"@))),
                }
            }
        },
    }
}

pub fn parse_volume<F: Fn(&str) -> Number>(bytes: &[u8], read: &F) -> (volume: Result<
    (Level, bool),
    SessionError,
>)
    requires
        can_read(*read),
    ensures
        forall|reader: Reader| #[trigger]
            reads_by(*read, reader) ==> match volume {
                Ok(volume) => volume_in(bytes@, reader) == Ok::<(Level, bool), Fault>(volume),
                Err(error) => volume_in(bytes@, reader) == Err::<(Level, bool), Fault>(
                    (error.kind, error.message@),
                ),
            },
{
    let text = match read_text(bytes, "volume output is not UTF-8") {
        Ok(text) => text,
        Err(error) => return Err(error),
    };
    let fields = words_of(text.as_slice(), false);
    assert(pieces(fields@).len() == fields@.len());
    assert forall|i: int| 0 <= i < fields@.len() implies #[trigger] pieces(fields@)[i]
        == fields@[i]@ by {}
    if fields.len() == 0 || !is_text(fields[0].as_slice(), "Volume:") {
        return invalid("volume output is malformed");
    }
    if fields.len() == 1 {
        return invalid("volume value omitted");
    }
    let token = string_of(fields[1].as_slice());
    let number = read(token.as_str());
    proof {
        assert forall|reader: Reader| #[trigger] reads_by(*read, reader) implies number == reader(
            token@,
        ) by {}
    }
    match number {
        Number::NotNumeric => invalid("volume is not numeric"),
        Number::OutOfRange => invalid("volume is not normalized"),
        Number::Level(level) => Ok((level, contains_text(text.as_slice(), "[MUTED]"))),
    }
}

pub struct NodeView {
    pub id: Seq<char>,
    pub name: Seq<char>,
    pub kind: AudioNodeKind,
    pub volume: Level,
    pub muted: bool,
    pub is_default: bool,
}

impl View for AudioNode {
    type V = NodeView;

    open spec fn view(&self) -> NodeView {
        NodeView {
            id: self.id@,
            name: self.name@,
            kind: self.kind,
            volume: self.volume,
            muted: self.muted,
            is_default: self.is_default,
        }
    }
}

pub struct StreamView {
    pub id: Seq<char>,
    pub name: Seq<char>,
    pub node_id: Seq<char>,
    pub volume: Level,
    pub muted: bool,
}

impl View for AudioStream {
    type V = StreamView;

    open spec fn view(&self) -> StreamView {
        StreamView {
            id: self.id@,
            name: self.name@,
            node_id: self.node_id@,
            volume: self.volume,
            muted: self.muted,
        }
    }
}

pub struct AudioView {
    pub nodes: Seq<NodeView>,
    pub streams: Seq<StreamView>,
}

impl View for AudioSnapshot {
    type V = AudioView;

    open spec fn view(&self) -> AudioView {
        AudioView { nodes: views(self.nodes@), streams: views(self.streams@) }
    }
}

/// The number of the first output that is the default.
pub open spec fn default_output(rows: Seq<RowView>) -> Option<Seq<char>>
    decreases rows.len(),
{
    if rows.len() == 0 {
        None
    } else if rows[0].kind == RowKind::Output && rows[0].is_default {
        Some(rows[0].id)
    } else {
        default_output(rows.skip(1))
    }
}

fn find_default(rows: &Vec<Row>) -> (id: Option<&Vec<char>>)
    ensures
        match id {
            Some(id) => default_output(views(rows@)) == Some(id@),
            None => default_output(views(rows@)) is None,
        },
{
    let ghost all = views(rows@);
    assert(all.skip(0) =~= all);
    for i in 0..rows.len()
        invariant
            all == views(rows@),
            default_output(all) == default_output(all.skip(i as int)),
    {
        assert(all.skip(i as int)[0] == rows@[i as int]@);
        assert(all.skip(i as int).skip(1) =~= all.skip(i + 1));
        if rows[i].kind == RowKind::Output && rows[i].is_default {
            return Some(&rows[i].id);
        }
    }
    assert(all.len() == rows@.len());
    None
}

/// What a row with its volume adds.
pub open spec fn with_volume(
    found: AudioView,
    row: RowView,
    volumes: Seq<(Seq<char>, Seq<u8>)>,
    output: Seq<char>,
    reader: Reader,
) -> Result<AudioView, Fault> {
    match reading(volumes, row.id) {
        None => malformed("audio volume readback omitted"@),
        Some(bytes) => match volume_in(bytes, reader) {
            Err(fault) => Err(fault),
            Ok((volume, muted)) => match row.kind {
                RowKind::Stream => match stream_identifier(row.id) {
                    Err(fault) => Err(fault),
                    Ok(id) => match node_identifier(output) {
                        Err(fault) => Err(fault),
                        Ok(node_id) => Ok(
                            AudioView {
                                nodes: found.nodes,
                                streams: found.streams.push(
                                    StreamView { id, name: row.name, node_id, volume, muted },
                                ),
                            },
                        ),
                    },
                },
                _ => match node_identifier(row.id) {
                    Err(fault) => Err(fault),
                    Ok(id) => Ok(
                        AudioView {
                            nodes: found.nodes.push(
                                NodeView {
                                    id,
                                    name: row.name,
                                    kind: if row.kind == RowKind::Output {
                                        AudioNodeKind::Output
                                    } else {
                                        AudioNodeKind::Input
                                    },
                                    volume,
                                    muted,
                                    is_default: row.is_default,
                                },
                            ),
                            streams: found.streams,
                        },
                    ),
                },
            },
        },
    }
}

/// The most nodes and streams that are read.
pub const MAX_NODES: usize = 4_096;

pub const MAX_STREAMS: usize = 16_384;

/// The nodes and streams of a list with their volumes.
pub open spec fn sounding(
    rows: Seq<RowView>,
    volumes: Seq<(Seq<char>, Seq<u8>)>,
    output: Seq<char>,
    reader: Reader,
) -> Result<AudioView, Fault> {
    folded(
        rows,
        AudioView { nodes: Seq::empty(), streams: Seq::empty() },
        |found: AudioView, row: RowView| with_volume(found, row, volumes, output, reader),
    )
}

/// What the outputs tell of audio.
pub open spec fn snapshot_in(
    status: Seq<u8>,
    volumes: Seq<(Seq<char>, Seq<u8>)>,
    reader: Reader,
) -> Result<AudioView, Fault> {
    match rows_in(status) {
        Err(fault) => Err(fault),
        Ok(rows) => match default_output(rows) {
            None => malformed("audio output default omitted"@),
            Some(output) => match sounding(rows, volumes, output, reader) {
                Err(fault) => Err(fault),
                Ok(audio) => if audio.nodes.len() > MAX_NODES || audio.streams.len()
                    > MAX_STREAMS {
                    malformed("audio snapshot exceeds its bound"@)
                } else {
                    Ok(audio)
                },
            },
        },
    }
}

fn take_volume<F: Fn(&str) -> Number>(
    found: AudioSnapshot,
    row: &Row,
    volumes: &Readings,
    output: &Vec<char>,
    read: &F,
) -> (next: Result<AudioSnapshot, SessionError>)
    requires
        can_read(*read),
    ensures
        forall|reader: Reader| #[trigger]
            reads_by(*read, reader) ==> seen(next) == with_volume(
                found@,
                row@,
                volumes@,
                output@,
                reader,
            ),
{
    let bytes = match volumes.get(row.id.as_slice()) {
        Some(bytes) => bytes,
        None => return invalid("audio volume readback omitted"),
    };
    let (volume, muted) = match parse_volume(bytes.as_slice(), read) {
        Ok(volume) => volume,
        Err(error) => return Err(error),
    };
    let mut next = found;
    let kind = match row.kind {
        RowKind::Stream => {
            let id = match stream_id(row.id.as_slice()) {
                Ok(id) => id,
                Err(error) => return Err(error),
            };
            let node_id = match node_id(output.as_slice()) {
                Ok(id) => id,
                Err(error) => return Err(error),
            };
            let stream = AudioStream { id, name: row.name.clone(), node_id, volume, muted };
            proof {
                views_of_push(next.streams@, stream);
            }
            next.streams.push(stream);
            return Ok(next);
        },
        RowKind::Output => AudioNodeKind::Output,
        RowKind::Input => AudioNodeKind::Input,
    };
    let id = match node_id(row.id.as_slice()) {
        Ok(id) => id,
        Err(error) => return Err(error),
    };
    let node = AudioNode {
        id,
        name: row.name.clone(),
        kind,
        volume,
        muted,
        is_default: row.is_default,
    };
    proof {
        views_of_push(next.nodes@, node);
    }
    next.nodes.push(node);
    Ok(next)
}

/// Reads audio from the list of the program and the volume of each row.
#[verifier::loop_isolation(false)]
pub fn parse_snapshot<F: Fn(&str) -> Number>(status: &[u8], volumes: &Readings, read: &F) -> (snapshot:
    Result<AudioSnapshot, SessionError>)
    requires
        can_read(*read),
    ensures
        forall|reader: Reader| #[trigger]
            reads_by(*read, reader) ==> seen(snapshot) == snapshot_in(status@, volumes@, reader),
{
    let rows = match parse_rows(status) {
        Ok(rows) => rows,
        Err(error) => return Err(error),
    };
    let output = match find_default(&rows) {
        Some(output) => output,
        None => return invalid("audio output default omitted"),
    };
    let ghost all = views(rows@);
    let mut found = AudioSnapshot { nodes: Vec::new(), streams: Vec::new() };
    assert(found@.nodes =~= Seq::empty());
    assert(found@.streams =~= Seq::empty());
    assert(all.skip(0) =~= all);
    for i in 0..rows.len()
        invariant
            forall|reader: Reader| #[trigger]
                reads_by(*read, reader) ==> folded(
                    all.skip(i as int),
                    found@,
                    |found: AudioView, row: RowView|
                        with_volume(found, row, volumes@, output@, reader),
                ) == sounding(all, volumes@, output@, reader),
    {
        let ghost before = found@;
        let next = take_volume(found, &rows[i], volumes, output, read);
        proof {
            assert(all[i as int] == rows@[i as int]@);
            assert forall|reader: Reader| #[trigger] reads_by(*read, reader) implies match next {
                Ok(next) => folded(
                    all.skip(i + 1),
                    next@,
                    |found: AudioView, row: RowView|
                        with_volume(found, row, volumes@, output@, reader),
                ) == sounding(all, volumes@, output@, reader),
                Err(error) => sounding(all, volumes@, output@, reader) == Err::<AudioView, Fault>(
                    (error.kind, error.message@),
                ),
            } by {
                folded_step(
                    all,
                    i as int,
                    before,
                    |found: AudioView, row: RowView|
                        with_volume(found, row, volumes@, output@, reader),
                );
            }
        }
        found = match next {
            Ok(next) => next,
            Err(error) => return Err(error),
        };
    }
    assert(all.len() == rows@.len());
    assert(found@.nodes.len() == found.nodes@.len());
    assert(found@.streams.len() == found.streams@.len());
    if found.nodes.len() > MAX_NODES || found.streams.len() > MAX_STREAMS {
        return invalid("audio snapshot exceeds its bound");
    }
    Ok(found)
}

// ---------------------------------------------------------------------------
// Probing
// ---------------------------------------------------------------------------

pub open spec fn status_line() -> CommandView {
    command_line("wpctl"@, seq!["status"@, "--name"@])
}

pub open spec fn volume_query(id: Seq<char>) -> CommandView {
    command_line("wpctl"@, seq!["get-volume"@, id])
}

/// Whether the volumes of rows are read.
pub open spec fn volumes_by(
    runs: Runs,
    rows: Seq<RowView>,
    volumes: Result<Seq<(Seq<char>, Seq<u8>)>, Fault>,
) -> bool {
    read_by(runs, rows, |row: RowView| row.id, |row: RowView| volume_query(row.id), volumes)
}

/// Whether audio is read: what comes of the programs leads to it.
pub open spec fn snapshot_by(
    runs: Runs,
    reader: Reader,
    snapshot: Result<AudioView, Fault>,
) -> bool {
    leads(
        runs,
        status_line(),
        snapshot,
        |status: Seq<u8>| measured_by(runs, reader, status, snapshot),
    )
}

/// Whether the volumes of what a status lists are read.
pub open spec fn measured_by(
    runs: Runs,
    reader: Reader,
    status: Seq<u8>,
    snapshot: Result<AudioView, Fault>,
) -> bool {
    match rows_in(status) {
        Err(fault) => snapshot == Err::<AudioView, Fault>(fault),
        Ok(rows) => exists|volumes: Result<Seq<(Seq<char>, Seq<u8>)>, Fault>| #[trigger]
            volumes_by(runs, rows, volumes) && snapshot == match volumes {
                Ok(volumes) => snapshot_in(status, volumes, reader),
                Err(fault) => Err(fault),
            },
    }
}

/// The programs that read audio.
pub open spec fn reading_lines() -> spec_fn(CommandView) -> bool {
    |line: CommandView|
        line == status_line() || exists|id: Seq<char>| line == #[trigger] volume_query(id)
}

#[verifier::loop_isolation(false)]
fn read_volumes<R: Fn(&CommandSpec) -> Run>(runner: &R, rows: &Vec<Row>) -> (volumes: Result<
    Readings,
    SessionError,
>)
    requires
        grants_all(*runner, reading_lines()),
    ensures
        volumes_by(runs_of(*runner), views(rows@), seen(volumes)),
{
    let ghost all = views(rows@);
    let mut volumes = Readings::new();
    for i in 0..rows.len()
        invariant
            volumes@.len() == i,
            forall|j: int|
                0 <= j < i ==> (#[trigger] volumes@[j]).0 == all[j].id && came_of(
                    runs_of(*runner),
                    volume_query(all[j].id),
                    Ok::<Seq<u8>, Fault>(volumes@[j].1),
                ),
    {
        let id = string_of(rows[i].id.as_slice());
        let spec = CommandSpec::new("wpctl").arg("get-volume").arg(id.as_str());
        assert(spec@.args =~= seq!["get-volume"@, id@]);
        assert(all[i as int].id == id@);
        let output = run(runner, spec);
        match output {
            Ok(output) => volumes.insert(id, output),
            Err(error) => {
                assert forall|j: int| 0 <= j < i implies succeeded(
                    runs_of(*runner),
                    volume_query((#[trigger] all[j]).id),
                ) by {
                    assert(volumes@[j].0 == all[j].id);
                }
                assert(came_of(
                    runs_of(*runner),
                    volume_query(all[i as int].id),
                    Err::<Seq<u8>, Fault>(fault_of(error)),
                ));
                return Err(error);
            },
        }
    }
    assert(all.len() == rows@.len());
    Ok(volumes)
}

/// Reads audio.
pub fn probe<R: Fn(&CommandSpec) -> Run, F: Fn(&str) -> Number>(runner: &R, read: &F) -> (snapshot:
    Result<AudioSnapshot, SessionError>)
    requires
        grants_all(*runner, reading_lines()),
        can_read(*read),
    ensures
        forall|reader: Reader| #[trigger]
            reads_by(*read, reader) ==> snapshot_by(runs_of(*runner), reader, seen(snapshot)),
{
    let spec = CommandSpec::new("wpctl").arg("status").arg("--name");
    assert(spec@.args =~= seq!["status"@, "--name"@]);
    let status = match run(runner, spec) {
        Ok(status) => status,
        Err(error) => return Err(error),
    };
    let rows = match parse_rows(status.as_slice()) {
        Ok(rows) => rows,
        Err(error) => return Err(error),
    };
    let volumes = read_volumes(runner, &rows);
    let ghost measured = seen(volumes);
    let snapshot = match volumes {
        Ok(volumes) => parse_snapshot(status.as_slice(), &volumes, read),
        Err(error) => Err(error),
    };
    proof {
        assert forall|reader: Reader| #[trigger] reads_by(*read, reader) implies snapshot_by(
            runs_of(*runner),
            reader,
            seen(snapshot),
        ) by {
            assert(volumes_by(runs_of(*runner), views(rows@), measured));
            assert(measured_by(runs_of(*runner), reader, status@, seen(snapshot)));
        }
    }
    snapshot
}

// ---------------------------------------------------------------------------
// Changing
// ---------------------------------------------------------------------------

/// What is asked of a node, a stream or both; what is not asked for does not
/// matter.
pub struct Wanted {
    pub id: Option<Seq<char>>,
    pub kind: Option<AudioNodeKind>,
    pub default: bool,
    pub level: bool,
    pub muted: Option<bool>,
}

/// Whether a node is as it was asked for.
pub open spec fn node_is(node: NodeView, wanted: Wanted, nearness: Nearness) -> bool {
    &&& wanted.id is None || node.id == wanted.id->Some_0
    &&& wanted.kind is None || node.kind == wanted.kind->Some_0
    &&& !wanted.default || node.is_default
    &&& !wanted.level || nearness(node.volume)
    &&& wanted.muted is None || node.muted == wanted.muted->Some_0
}

pub open spec fn some_node_is(nodes: Seq<NodeView>, wanted: Wanted, nearness: Nearness) -> bool {
    exists|i: int| 0 <= i < nodes.len() && node_is(#[trigger] nodes[i], wanted, nearness)
}

pub open spec fn some_stream_is(
    streams: Seq<StreamView>,
    id: Seq<char>,
    level: bool,
    muted: Option<bool>,
    nearness: Nearness,
) -> bool {
    exists|i: int|
        0 <= i < streams.len() && (#[trigger] streams[i]).id == id && (!level || nearness(
            streams[i].volume,
        )) && (muted is None || streams[i].muted == muted->Some_0)
}

/// Whether audio is as a change would leave it.
pub open spec fn confirmed(command: AudioCommand, audio: AudioView, nearness: Nearness) -> bool {
    match command {
        AudioCommand::SetDefaultNode { node_id } => some_node_is(
            audio.nodes,
            Wanted {
                id: Some(node_id.0@),
                kind: None,
                default: true,
                level: false,
                muted: None,
            },
            nearness,
        ),
        AudioCommand::SetNodeVolume { node_id, .. } => some_node_is(
            audio.nodes,
            Wanted {
                id: Some(node_id.0@),
                kind: None,
                default: false,
                level: true,
                muted: None,
            },
            nearness,
        ),
        AudioCommand::SetNodeMuted { node_id, muted } => some_node_is(
            audio.nodes,
            Wanted {
                id: Some(node_id.0@),
                kind: None,
                default: false,
                level: false,
                muted: Some(muted),
            },
            nearness,
        ),
        AudioCommand::SetStreamVolume { stream_id, .. } => some_stream_is(
            audio.streams,
            stream_id.0@,
            true,
            None,
            nearness,
        ),
        AudioCommand::SetStreamMuted { stream_id, muted } => some_stream_is(
            audio.streams,
            stream_id.0@,
            false,
            Some(muted),
            nearness,
        ),
    }
}

/// What is asked of a node.
struct NodeRequest<'a> {
    id: Option<&'a str>,
    kind: Option<AudioNodeKind>,
    default: bool,
    level: bool,
    muted: Option<bool>,
}

impl<'a> NodeRequest<'a> {
    closed spec fn wanted(&self) -> Wanted {
        Wanted {
            id: match self.id {
                Some(id) => Some(id@),
                None => None,
            },
            kind: self.kind,
            default: self.default,
            level: self.level,
            muted: self.muted,
        }
    }
}

fn node_matches<N: Fn(Level) -> bool>(node: &AudioNode, request: &NodeRequest, near: &N) -> (matching:
    bool)
    requires
        can_tell(*near),
    ensures
        forall|nearness: Nearness| #[trigger]
            near_by(*near, nearness) ==> matching == node_is(node@, request.wanted(), nearness),
{
    match request.id {
        Some(id) => if !same_text(node.id.as_str(), id) {
            return false;
        },
        None => {},
    }
    match request.kind {
        Some(kind) => if node.kind != kind {
            return false;
        },
        None => {},
    }
    if request.default && !node.is_default {
        return false;
    }
    match request.muted {
        Some(muted) => if node.muted != muted {
            return false;
        },
        None => {},
    }
    if !request.level {
        return true;
    }
    let close = near(node.volume);
    proof {
        assert forall|nearness: Nearness| #[trigger] near_by(*near, nearness) implies close
            == nearness(node.volume) by {}
    }
    close
}

#[verifier::loop_isolation(false)]
fn any_node<N: Fn(Level) -> bool>(nodes: &Vec<AudioNode>, request: &NodeRequest, near: &N) -> (found:
    bool)
    requires
        can_tell(*near),
    ensures
        forall|nearness: Nearness| #[trigger]
            near_by(*near, nearness) ==> found == some_node_is(
                views(nodes@),
                request.wanted(),
                nearness,
            ),
{
    for i in 0..nodes.len()
        invariant
            forall|nearness: Nearness, j: int|
                #![trigger near_by(*near, nearness), views(nodes@)[j]]
                near_by(*near, nearness) && 0 <= j < i ==> !node_is(
                    views(nodes@)[j],
                    request.wanted(),
                    nearness,
                ),
    {
        let matching = node_matches(&nodes[i], request, near);
        assert(views(nodes@)[i as int] == nodes@[i as int]@);
        if matching {
            return true;
        }
    }
    false
}

#[verifier::loop_isolation(false)]
fn any_stream<N: Fn(Level) -> bool>(
    streams: &Vec<AudioStream>,
    id: &str,
    level: bool,
    muted: Option<bool>,
    near: &N,
) -> (found: bool)
    requires
        can_tell(*near),
    ensures
        forall|nearness: Nearness| #[trigger]
            near_by(*near, nearness) ==> found == some_stream_is(
                views(streams@),
                id@,
                level,
                muted,
                nearness,
            ),
{
    for i in 0..streams.len()
        invariant
            forall|nearness: Nearness, j: int|
                #![trigger near_by(*near, nearness), views(streams@)[j]]
                near_by(*near, nearness) && 0 <= j < i ==> !(views(streams@)[j].id == id@ && (
                !level || nearness(views(streams@)[j].volume)) && (muted is None
                    || views(streams@)[j].muted == muted->Some_0)),
    {
        let stream = &streams[i];
        assert(views(streams@)[i as int] == stream@);
        let silence = match muted {
            Some(muted) => stream.muted == muted,
            None => true,
        };
        if same_text(stream.id.as_str(), id) && silence {
            if !level {
                return true;
            }
            let close = near(stream.volume);
            proof {
                assert forall|nearness: Nearness| #[trigger] near_by(*near, nearness) implies close
                    == nearness(stream.volume) by {}
            }
            if close {
                return true;
            }
        }
    }
    false
}

/// Audio after a change, if it is as the change would leave it.
pub open spec fn confirmation(command: AudioCommand, audio: AudioView, nearness: Nearness) -> Result<
    AudioView,
    Fault,
> {
    if confirmed(command, audio, nearness) {
        Ok(audio)
    } else {
        Err((ErrorKind::Other, "WirePlumber readback did not confirm the requested state"@))
    }
}

/// Compares audio after a change with what the change would leave.
pub fn confirm<N: Fn(Level) -> bool>(command: &AudioCommand, snapshot: AudioSnapshot, near: &N) -> (result:
    Result<AudioSnapshot, SessionError>)
    requires
        can_tell(*near),
    ensures
        forall|nearness: Nearness| #[trigger]
            near_by(*near, nearness) ==> seen(result) == confirmation(
                *command,
                snapshot@,
                nearness,
            ),
{
    let confirmed = match command {
        AudioCommand::SetDefaultNode { node_id } => any_node(
            &snapshot.nodes,
            &NodeRequest {
                id: Some(node_id.as_str()),
                kind: None,
                default: true,
                level: false,
                muted: None,
            },
            near,
        ),
        AudioCommand::SetNodeVolume { node_id, .. } => any_node(
            &snapshot.nodes,
            &NodeRequest {
                id: Some(node_id.as_str()),
                kind: None,
                default: false,
                level: true,
                muted: None,
            },
            near,
        ),
        AudioCommand::SetNodeMuted { node_id, muted } => any_node(
            &snapshot.nodes,
            &NodeRequest {
                id: Some(node_id.as_str()),
                kind: None,
                default: false,
                level: false,
                muted: Some(*muted),
            },
            near,
        ),
        AudioCommand::SetStreamVolume { stream_id, .. } => any_stream(
            &snapshot.streams,
            stream_id.as_str(),
            true,
            None,
            near,
        ),
        AudioCommand::SetStreamMuted { stream_id, muted } => any_stream(
            &snapshot.streams,
            stream_id.as_str(),
            false,
            Some(*muted),
            near,
        ),
    };
    if !confirmed {
        return Err(
            SessionError::new(
                ErrorKind::Other,
                "WirePlumber readback did not confirm the requested state",
            ),
        );
    }
    Ok(snapshot)
}

/// Whether a change is made: the program that makes it and the programs that then
/// read audio lead to the result.
pub open spec fn mutation_by(
    changes: Runs,
    runs: Runs,
    reader: Reader,
    nearness: Nearness,
    command: AudioCommand,
    result: Result<AudioView, Fault>,
) -> bool {
    match mutation_line(command) {
        Err(fault) => result == Err::<AudioView, Fault>(fault),
        Ok(line) => leads(
            changes,
            line,
            result,
            |_output: Seq<u8>|
                exists|snapshot: Result<AudioView, Fault>| #[trigger]
                    snapshot_by(runs, reader, snapshot) && result == match snapshot {
                        Ok(audio) => confirmation(command, audio, nearness),
                        Err(fault) => Err(fault),
                    },
        ),
    }
}

/// Makes a change, once, and then reads audio again. The change succeeds only if
/// audio confirms it.
pub fn mutate<
    C: FnOnce(&CommandSpec) -> Run,
    R: Fn(&CommandSpec) -> Run,
    F: Fn(&str) -> Number,
    N: Fn(Level) -> bool,
>(
    change: C,
    runner: &R,
    read: &F,
    near: &N,
    command: &AudioCommand,
) -> (snapshot: Result<AudioSnapshot, SessionError>)
    requires
        may_change(change, *runner, mutation_line(*command), reading_lines()),
        can_read(*read),
        can_tell(*near),
    ensures
        forall|reader: Reader, nearness: Nearness|
            #![trigger reads_by(*read, reader), near_by(*near, nearness)]
            reads_by(*read, reader) && near_by(*near, nearness) ==> mutation_by(
                runs_of(change),
                runs_of(*runner),
                reader,
                nearness,
                *command,
                seen(snapshot),
            ),
{
    let spec = match mutation_spec(command) {
        Ok(spec) => spec,
        Err(error) => return Err(error),
    };
    match run_once(change, spec) {
        Ok(_) => {},
        Err(error) => return Err(error),
    }
    let snapshot = match probe(runner, read) {
        Ok(snapshot) => snapshot,
        Err(error) => return Err(error),
    };
    confirm(command, snapshot, near)
}

// ---------------------------------------------------------------------------
// Changes of the default nodes
// ---------------------------------------------------------------------------

/// The command line of a change of a default node.
pub open spec fn legacy_line(mutation: SystemMutation) -> Result<CommandView, Fault> {
    match mutation {
        SystemMutation::AudioVolume(level) => Ok(
            command_line("wpctl"@, seq!["set-volume"@, "@DEFAULT_AUDIO_SINK@"@, level.text@]),
        ),
        SystemMutation::AudioMuted(muted) => Ok(
            command_line(
                "wpctl"@,
                seq!["set-mute"@, "@DEFAULT_AUDIO_SINK@"@, one_or_zero(muted)],
            ),
        ),
        SystemMutation::AudioMicrophoneLevel(level) => Ok(
            command_line("wpctl"@, seq!["set-volume"@, "@DEFAULT_AUDIO_SOURCE@"@, level.text@]),
        ),
        SystemMutation::AudioMicrophoneMuted(muted) => Ok(
            command_line(
                "wpctl"@,
                seq!["set-mute"@, "@DEFAULT_AUDIO_SOURCE@"@, one_or_zero(muted)],
            ),
        ),
        SystemMutation::AudioOutputDevice(id) => match node_identifier(id@) {
            Err(fault) => Err(fault),
            Ok(target) => match number_in("audio-node:"@, target) {
                Err(fault) => Err(fault),
                Ok(number) => Ok(limited("wpctl"@, seq!["set-default"@, number], AUDIO_TIMEOUT)),
            },
        },
        _ => refused("legacy mutation is not an audio action"@),
    }
}

/// What a change of a default node asks of some node.
pub open spec fn legacy_wanted(mutation: SystemMutation) -> Wanted {
    let kind = if mutation is AudioMicrophoneLevel || mutation is AudioMicrophoneMuted {
        AudioNodeKind::Input
    } else {
        AudioNodeKind::Output
    };
    let nothing = Wanted {
        id: None,
        kind: Some(kind),
        default: false,
        level: false,
        muted: None,
    };
    match mutation {
        SystemMutation::AudioVolume(_) => Wanted { level: true, ..nothing },
        SystemMutation::AudioMicrophoneLevel(_) => Wanted { level: true, ..nothing },
        SystemMutation::AudioMuted(muted) => Wanted { muted: Some(muted), ..nothing },
        SystemMutation::AudioMicrophoneMuted(muted) => Wanted { muted: Some(muted), ..nothing },
        SystemMutation::AudioOutputDevice(id) => Wanted {
            id: Some(node_identifier(id@)->Ok_0),
            default: true,
            ..nothing
        },
        _ => nothing,
    }
}

/// Audio after a change of a default node, if some node is as it was asked for.
pub open spec fn legacy_confirmation(
    mutation: SystemMutation,
    audio: AudioView,
    nearness: Nearness,
) -> Result<AudioView, Fault> {
    if some_node_is(audio.nodes, legacy_wanted(mutation), nearness) {
        Ok(audio)
    } else {
        Err((ErrorKind::Other, "legacy audio readback did not confirm the requested state"@))
    }
}

/// Whether a change of a default node is made.
pub open spec fn legacy_by(
    changes: Runs,
    runs: Runs,
    reader: Reader,
    nearness: Nearness,
    mutation: SystemMutation,
    result: Result<AudioView, Fault>,
) -> bool {
    match legacy_line(mutation) {
        Err(fault) => result == Err::<AudioView, Fault>(fault),
        Ok(line) => leads(
            changes,
            line,
            result,
            |_output: Seq<u8>|
                exists|snapshot: Result<AudioView, Fault>| #[trigger]
                    snapshot_by(runs, reader, snapshot) && result == match snapshot {
                        Ok(audio) => legacy_confirmation(mutation, audio, nearness),
                        Err(fault) => Err(fault),
                    },
        ),
    }
}

fn default_command(verb: &str, node: &str, value: &str) -> (spec: CommandSpec)
    ensures
        spec@ == command_line("wpctl"@, seq![verb@, node@, value@]),
{
    let spec = CommandSpec::new("wpctl").arg(verb).arg(node).arg(value);
    assert(spec@.args =~= seq![verb@, node@, value@]);
    spec
}

/// The command line of a change of a default node, with the identifier of the
/// node where the change names one.
fn legacy_spec(mutation: &SystemMutation) -> (spec: Result<
    (CommandSpec, Option<String>),
    SessionError,
>)
    ensures
        match spec {
            Ok(spec) => {
                &&& legacy_line(*mutation) == Ok::<CommandView, Fault>(spec.0@)
                &&& super::wire::optional_text(spec.1) == legacy_wanted(*mutation).id
            },
            Err(error) => legacy_line(*mutation) == Err::<CommandView, Fault>(
                (error.kind, error.message@),
            ),
        },
{
    let spec = match mutation {
        SystemMutation::AudioVolume(level) => default_command(
            "set-volume",
            "@DEFAULT_AUDIO_SINK@",
            level.text.as_str(),
        ),
        SystemMutation::AudioMuted(muted) => default_command(
            "set-mute",
            "@DEFAULT_AUDIO_SINK@",
            boolean(*muted),
        ),
        SystemMutation::AudioMicrophoneLevel(level) => default_command(
            "set-volume",
            "@DEFAULT_AUDIO_SOURCE@",
            level.text.as_str(),
        ),
        SystemMutation::AudioMicrophoneMuted(muted) => default_command(
            "set-mute",
            "@DEFAULT_AUDIO_SOURCE@",
            boolean(*muted),
        ),
        SystemMutation::AudioOutputDevice(id) => {
            let target = match node_id(chars_of(id.as_str()).as_slice()) {
                Ok(target) => target,
                Err(error) => return Err(error),
            };
            let copy = target.clone();
            let command = AudioCommand::SetDefaultNode { node_id: StableId(copy) };
            return match mutation_spec(&command) {
                Ok(spec) => Ok((spec, Some(target))),
                Err(error) => Err(error),
            };
        },
        _ => return invalid_input("legacy mutation is not an audio action"),
    };
    Ok((spec, None))
}

/// Makes a change of a default node, once, and then reads audio again. The change
/// succeeds only if some node is as it was asked for.
pub fn mutate_legacy<
    C: FnOnce(&CommandSpec) -> Run,
    R: Fn(&CommandSpec) -> Run,
    F: Fn(&str) -> Number,
    N: Fn(Level) -> bool,
>(
    change: C,
    runner: &R,
    read: &F,
    near: &N,
    mutation: &SystemMutation,
) -> (snapshot: Result<AudioSnapshot, SessionError>)
    requires
        may_change(change, *runner, legacy_line(*mutation), reading_lines()),
        can_read(*read),
        can_tell(*near),
    ensures
        forall|reader: Reader, nearness: Nearness|
            #![trigger reads_by(*read, reader), near_by(*near, nearness)]
            reads_by(*read, reader) && near_by(*near, nearness) ==> legacy_by(
                runs_of(change),
                runs_of(*runner),
                reader,
                nearness,
                *mutation,
                seen(snapshot),
            ),
{
    let (spec, target) = match legacy_spec(mutation) {
        Ok(spec) => spec,
        Err(error) => return Err(error),
    };
    match run_once(change, spec) {
        Ok(_) => {},
        Err(error) => return Err(error),
    }
    let snapshot = match probe(runner, read) {
        Ok(snapshot) => snapshot,
        Err(error) => return Err(error),
    };
    let (kind, default, level, muted) = match mutation {
        SystemMutation::AudioVolume(_) => (AudioNodeKind::Output, false, true, None),
        SystemMutation::AudioMuted(muted) => (AudioNodeKind::Output, false, false, Some(*muted)),
        SystemMutation::AudioMicrophoneLevel(_) => (AudioNodeKind::Input, false, true, None),
        SystemMutation::AudioMicrophoneMuted(muted) => (
            AudioNodeKind::Input,
            false,
            false,
            Some(*muted),
        ),
        _ => (AudioNodeKind::Output, true, false, None),
    };
    let request = NodeRequest {
        id: match &target {
            Some(target) => Some(target.as_str()),
            None => None,
        },
        kind: Some(kind),
        default,
        level,
        muted,
    };
    assert(request.wanted() == legacy_wanted(*mutation));
    if !any_node(&snapshot.nodes, &request, near) {
        return Err(
            SessionError::new(
                ErrorKind::Other,
                "legacy audio readback did not confirm the requested state",
            ),
        );
    }
    Ok(snapshot)
}

/// A change that succeeds was accepted by the program that makes it, and was
/// confirmed by what the programs that read audio gave.
pub proof fn a_change_is_confirmed(
    changes: Runs,
    runs: Runs,
    reader: Reader,
    nearness: Nearness,
    command: AudioCommand,
    audio: AudioView,
)
    requires
        mutation_by(changes, runs, reader, nearness, command, Ok::<AudioView, Fault>(audio)),
    ensures
        mutation_line(command) is Ok,
        succeeded(changes, mutation_line(command)->Ok_0),
        confirmed(command, audio, nearness),
        snapshot_by(runs, reader, Ok::<AudioView, Fault>(audio)),
{
    let line = mutation_line(command)->Ok_0;
    let outcome = choose|outcome: Result<Seq<u8>, Fault>| #[trigger]
        came_of(changes, line, outcome) && outcome is Ok;
    assert(came_of(changes, line, Ok::<Seq<u8>, Fault>(outcome->Ok_0)));
}

/// A change of a default node that succeeds was accepted by the program that makes
/// it, and was confirmed by what the programs that read audio gave.
pub proof fn a_change_of_a_default_node_is_confirmed(
    changes: Runs,
    runs: Runs,
    reader: Reader,
    nearness: Nearness,
    mutation: SystemMutation,
    audio: AudioView,
)
    requires
        legacy_by(changes, runs, reader, nearness, mutation, Ok::<AudioView, Fault>(audio)),
    ensures
        legacy_line(mutation) is Ok,
        succeeded(changes, legacy_line(mutation)->Ok_0),
        some_node_is(audio.nodes, legacy_wanted(mutation), nearness),
        snapshot_by(runs, reader, Ok::<AudioView, Fault>(audio)),
{
    let line = legacy_line(mutation)->Ok_0;
    let outcome = choose|outcome: Result<Seq<u8>, Fault>| #[trigger]
        came_of(changes, line, outcome) && outcome is Ok;
    assert(came_of(changes, line, Ok::<Seq<u8>, Fault>(outcome->Ok_0)));
}

/// Each change is made by its own words, on the node or the stream whose number was
/// named: a level is set as it was spelled, and what is muted is told `1` and what is
/// not is told `0`.
pub proof fn changes_are_made_in_these_words(
    node_id: StableId,
    stream_id: StableId,
    number: Seq<char>,
    level: RequestedLevel,
    muted: bool,
)
    requires
        audio_number(number) is Ok,
        node_id.0@ == "audio-node:"@ + number,
        stream_id.0@ == "audio-stream:"@ + number,
    ensures
        mutation_line(AudioCommand::SetDefaultNode { node_id }) == Ok::<CommandView, Fault>(
            CommandView {
                program: "wpctl"@,
                args: seq!["set-default"@, number],
                timeout: Some(5_000),
            },
        ),
        level.normalized ==> {
            let line = CommandView {
                program: "wpctl"@,
                args: seq!["set-volume"@, number, level.text@],
                timeout: Some(5_000),
            };
            &&& mutation_line(AudioCommand::SetNodeVolume { node_id, level }) == Ok::<
                CommandView,
                Fault,
            >(line)
            &&& mutation_line(AudioCommand::SetStreamVolume { stream_id, level }) == Ok::<
                CommandView,
                Fault,
            >(line)
        },
        !level.normalized ==> mutation_line(
            AudioCommand::SetNodeVolume { node_id, level },
        ) is Err && mutation_line(AudioCommand::SetStreamVolume { stream_id, level }) is Err,
        ({
            let line = CommandView {
                program: "wpctl"@,
                args: seq![
                    "set-mute"@,
                    number,
                    if muted {
                        "1"@
                    } else {
                        "0"@
                    },
                ],
                timeout: Some(5_000),
            };
            &&& mutation_line(AudioCommand::SetNodeMuted { node_id, muted }) == Ok::<
                CommandView,
                Fault,
            >(line)
            &&& mutation_line(AudioCommand::SetStreamMuted { stream_id, muted }) == Ok::<
                CommandView,
                Fault,
            >(line)
        }),
{
    audio_identifiers_lead_back("audio-node:"@, number);
    audio_identifiers_lead_back("audio-stream:"@, number);
}

/// A change of a default node is made on what it is for: the volume and the silence of
/// the outputs on the sink, those of the microphones on the source.
pub proof fn default_nodes_are_changed_in_these_words(
    level: RequestedLevel,
    muted: bool,
    id: String,
)
    ensures
        legacy_line(SystemMutation::AudioVolume(level)) == Ok::<CommandView, Fault>(
            CommandView {
                program: "wpctl"@,
                args: seq!["set-volume"@, "@DEFAULT_AUDIO_SINK@"@, level.text@],
                timeout: None,
            },
        ),
        legacy_line(SystemMutation::AudioMicrophoneLevel(level)) == Ok::<CommandView, Fault>(
            CommandView {
                program: "wpctl"@,
                args: seq!["set-volume"@, "@DEFAULT_AUDIO_SOURCE@"@, level.text@],
                timeout: None,
            },
        ),
        legacy_line(SystemMutation::AudioMuted(muted)) == Ok::<CommandView, Fault>(
            CommandView {
                program: "wpctl"@,
                args: seq![
                    "set-mute"@,
                    "@DEFAULT_AUDIO_SINK@"@,
                    if muted {
                        "1"@
                    } else {
                        "0"@
                    },
                ],
                timeout: None,
            },
        ),
        legacy_line(SystemMutation::AudioMicrophoneMuted(muted)) == Ok::<CommandView, Fault>(
            CommandView {
                program: "wpctl"@,
                args: seq![
                    "set-mute"@,
                    "@DEFAULT_AUDIO_SOURCE@"@,
                    if muted {
                        "1"@
                    } else {
                        "0"@
                    },
                ],
                timeout: None,
            },
        ),
        audio_number(id@) is Ok ==> legacy_line(SystemMutation::AudioOutputDevice(id)) == Ok::<
            CommandView,
            Fault,
        >(
            CommandView {
                program: "wpctl"@,
                args: seq!["set-default"@, id@],
                timeout: Some(5_000),
            },
        ),
        legacy_wanted(SystemMutation::AudioMuted(muted)).kind == Some(AudioNodeKind::Output),
        legacy_wanted(SystemMutation::AudioMuted(muted)).muted == Some(muted),
        legacy_wanted(SystemMutation::AudioMicrophoneMuted(muted)).kind == Some(
            AudioNodeKind::Input,
        ),
        legacy_wanted(SystemMutation::AudioMicrophoneMuted(muted)).muted == Some(muted),
        legacy_wanted(SystemMutation::AudioVolume(level)).kind == Some(AudioNodeKind::Output),
        legacy_wanted(SystemMutation::AudioVolume(level)).level,
        legacy_wanted(SystemMutation::AudioMicrophoneLevel(level)).kind == Some(
            AudioNodeKind::Input,
        ),
        legacy_wanted(SystemMutation::AudioMicrophoneLevel(level)).level,
        legacy_wanted(SystemMutation::AudioOutputDevice(id)).default,
{
    if audio_number(id@) is Ok {
        audio_identifiers_lead_back("audio-node:"@, id@);
    }
}

/// What confirms a change: the node or the stream that was meant is the default, is as
/// loud as was asked, or is as silent as was asked.
pub proof fn changes_are_confirmed_by_what_was_asked(
    audio: AudioView,
    nearness: Nearness,
    node_id: StableId,
    stream_id: StableId,
    level: RequestedLevel,
    muted: bool,
)
    ensures
        confirmed(AudioCommand::SetDefaultNode { node_id }, audio, nearness) <==> exists|i: int|
            0 <= i < audio.nodes.len() && (#[trigger] audio.nodes[i]).id == node_id.0@
                && audio.nodes[i].is_default,
        confirmed(AudioCommand::SetNodeVolume { node_id, level }, audio, nearness) <==> exists|
            i: int,
        |
            0 <= i < audio.nodes.len() && (#[trigger] audio.nodes[i]).id == node_id.0@ && nearness(
                audio.nodes[i].volume,
            ),
        confirmed(AudioCommand::SetNodeMuted { node_id, muted }, audio, nearness) <==> exists|i: int|
            0 <= i < audio.nodes.len() && (#[trigger] audio.nodes[i]).id == node_id.0@
                && audio.nodes[i].muted == muted,
        confirmed(AudioCommand::SetStreamVolume { stream_id, level }, audio, nearness) <==> exists|
            i: int,
        |
            0 <= i < audio.streams.len() && (#[trigger] audio.streams[i]).id == stream_id.0@
                && nearness(audio.streams[i].volume),
        confirmed(AudioCommand::SetStreamMuted { stream_id, muted }, audio, nearness) <==> exists|
            i: int,
        |
            0 <= i < audio.streams.len() && (#[trigger] audio.streams[i]).id == stream_id.0@
                && audio.streams[i].muted == muted,
{
    assert forall|i: int, wanted: Wanted| 0 <= i < audio.nodes.len() && node_is(
        #[trigger] audio.nodes[i],
        wanted,
        nearness,
    ) implies #[trigger] some_node_is(audio.nodes, wanted, nearness) by {}
}

/// What is heard of a volume: its level is the word after `Volume:`, and it is silent
/// exactly where `[MUTED]` stands somewhere.
pub proof fn volumes_are_read_as_they_are_told(
    bytes: Seq<u8>,
    reader: Reader,
    level: Level,
    muted: bool,
)
    requires
        volume_in(bytes, reader) == Ok::<(Level, bool), Fault>((level, muted)),
    ensures
        ({
            let text = vstd::utf8::decode_utf8(bytes);
            &&& words(text, false)[0] == "Volume:"@
            &&& reader(words(text, false)[1]) == Number::Level(level)
            &&& muted <==> has_part(text, "[MUTED]"@)
        }),
{
}

/// A row of the list keeps its section, its number and its name, and is the default
/// exactly where it begins with an asterisk. Sinks are outputs and sources are inputs.
pub proof fn rows_are_read_as_they_are_shown(
    list: ListView,
    kind: RowKind,
    line: Seq<char>,
    next: ListView,
)
    requires
        with_row(list, kind, line) == Ok::<ListView, Fault>(next),
        trim(without_stars(line)).contains('.'),
    ensures
        next.section == list.section,
        next.rows.drop_last() == list.rows,
        next.rows.last().kind == kind,
        next.rows.last().is_default <==> line.len() > 0 && line[0] == '*',
        next.rows.last().name.len() > 0,
        audio_number(next.rows.last().id) is Ok,
        heading("Sinks:"@) == Some(Some(RowKind::Output)),
        heading("Sources:"@) == Some(Some(RowKind::Input)),
        heading("Streams:"@) == Some(Some(RowKind::Stream)),
{
    crate::text::first_index_facts(trim(without_stars(line)), '.');
    assert(next.rows.drop_last() =~= list.rows);
    reveal_strlit("Sinks:");
    reveal_strlit("Sources:");
    reveal_strlit("Streams:");
    assert("Sinks:"@[1] == 'i');
    assert("Sources:"@[1] == 'o');
    assert("Streams:"@[1] == 't');
}

/// A node or a stream is as loud and as silent as its own reading tells, under the
/// identifier of its own number, and streams play on the default output.
pub proof fn nodes_are_read_as_they_are_told(
    found: AudioView,
    row: RowView,
    volumes: Seq<(Seq<char>, Seq<u8>)>,
    output: Seq<char>,
    reader: Reader,
    next: AudioView,
)
    requires
        with_volume(found, row, volumes, output, reader) == Ok::<AudioView, Fault>(next),
    ensures
        ({
            let told = volume_in(reading(volumes, row.id)->Some_0, reader)->Ok_0;
            if row.kind == RowKind::Stream {
                &&& next.nodes == found.nodes
                &&& next.streams.drop_last() == found.streams
                &&& next.streams.last().id == "audio-stream:"@ + row.id
                &&& next.streams.last().node_id == "audio-node:"@ + output
                &&& next.streams.last().name == row.name
                &&& next.streams.last().volume == told.0
                &&& next.streams.last().muted == told.1
            } else {
                &&& next.streams == found.streams
                &&& next.nodes.drop_last() == found.nodes
                &&& next.nodes.last().id == "audio-node:"@ + row.id
                &&& next.nodes.last().name == row.name
                &&& next.nodes.last().kind == AudioNodeKind::Output <==> row.kind
                    == RowKind::Output
                &&& next.nodes.last().kind == AudioNodeKind::Input <==> row.kind == RowKind::Input
                &&& next.nodes.last().volume == told.0
                &&& next.nodes.last().muted == told.1
                &&& next.nodes.last().is_default == row.is_default
            }
        }),
{
    if row.kind == RowKind::Stream {
        assert(next.streams.drop_last() =~= found.streams);
    } else {
        assert(next.nodes.drop_last() =~= found.nodes);
    }
}

/// The default output is the first that is marked.
pub proof fn the_default_output_is_marked(rows: Seq<RowView>, at: int)
    requires
        0 <= at < rows.len(),
        rows[at].kind == RowKind::Output && rows[at].is_default,
        forall|i: int|
            0 <= i < at ==> !((#[trigger] rows[i]).kind == RowKind::Output && rows[i].is_default),
    ensures
        default_output(rows) == Some(rows[at].id),
    decreases rows.len(),
{
    if at > 0 {
        assert(!(rows[0].kind == RowKind::Output && rows[0].is_default));
        let rest = rows.skip(1);
        assert forall|i: int| 0 <= i < at - 1 implies !((#[trigger] rest[i]).kind
            == RowKind::Output && rest[i].is_default) by {
            assert(rest[i] == rows[i + 1]);
        }
        the_default_output_is_marked(rest, at - 1);
    }
}

} // verus!

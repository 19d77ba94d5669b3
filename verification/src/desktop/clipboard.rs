//! The clipboard history, read with `cliphist`. Only bounded previews and
//! metadata are kept of it.

use vstd::prelude::*;

use crate::command::{limited, CommandSpec, CommandView};
use crate::error::{invalid, invalid_input, malformed, refused, seen, Fault, SessionError};
use crate::rows::{
    canonical_number, folded, folded_step, read_number, read_text, text_in, views, views_of_push,
};
use crate::text::{
    after_prefix, chars_of, find_char, first_index, first_index_facts, is_blank, lines, lines_of,
    parse_u64, pieces, prefixed, split_at_most, split_limited, string_of, strip_prefix, trim_chars,
    trim_is_empty_iff_blank, unsigned_value,
};

use super::domain::{ClipboardEntry, StableId};

verus! {

/// The longest that a command may take, in milliseconds.
pub const CLIPBOARD_TIMEOUT: u64 = 5_000;

/// The most entries of the history.
pub const MAX_ENTRIES: usize = 500;

/// The most characters of a preview.
pub const MAX_PREVIEW: usize = 512;

pub open spec fn list_line() -> CommandView {
    limited("cliphist"@, seq!["list"@], CLIPBOARD_TIMEOUT)
}

pub fn list_spec() -> (spec: CommandSpec)
    ensures
        spec@ == list_line(),
{
    let spec = CommandSpec::new("cliphist").within(CLIPBOARD_TIMEOUT).arg("list");
    assert(spec@.args =~= seq!["list"@]);
    spec
}

pub open spec fn clear_line() -> CommandView {
    limited("cliphist"@, seq!["wipe"@], CLIPBOARD_TIMEOUT)
}

pub fn clear_spec() -> (spec: CommandSpec)
    ensures
        spec@ == clear_line(),
{
    let spec = CommandSpec::new("cliphist").within(CLIPBOARD_TIMEOUT).arg("wipe");
    assert(spec@.args =~= seq!["wipe"@]);
    spec
}

pub open spec fn entry_number(s: Seq<char>) -> Result<Seq<char>, Fault> {
    canonical_number(s, "invalid clipboard entry ID"@, "clipboard entry ID is not canonical"@)
}

fn numeric(s: &[char]) -> (number: Result<String, SessionError>)
    ensures
        seen(number) == entry_number(s@),
{
    read_number(s, "invalid clipboard entry ID", "clipboard entry ID is not canonical")
}

/// The number in the identifier of an entry.
pub open spec fn number_in(id: Seq<char>) -> Result<Seq<char>, Fault> {
    match after_prefix(id, "clipboard:"@) {
        Some(number) => entry_number(number),
        None => refused("invalid clipboard ID"@),
    }
}

pub fn numeric_entry(entry_id: &StableId) -> (number: Result<String, SessionError>)
    ensures
        seen(number) == number_in(entry_id.0@),
{
    let letters = chars_of(entry_id.as_str());
    match strip_prefix(letters.as_slice(), "clipboard:") {
        Some(number) => numeric(number),
        None => invalid_input("invalid clipboard ID"),
    }
}

/// The identifier of an entry: a prefix and its number.
pub open spec fn entry_identifier(number: Seq<char>) -> Seq<char> {
    "clipboard:"@ + number
}

/// The identifier of an entry leads back to its number.
pub proof fn entry_identifiers_lead_back(number: Seq<char>)
    requires
        entry_number(number) is Ok,
    ensures
        number_in(entry_identifier(number)) == Ok::<Seq<char>, Fault>(number),
{
    let prefix = "clipboard:"@;
    let id = entry_identifier(number);
    assert(id.take(prefix.len() as int) =~= prefix);
    assert(id.skip(prefix.len() as int) =~= number);
}

/// The command line that gives the contents of an entry.
pub open spec fn decode_line(id: Seq<char>) -> Result<CommandView, Fault> {
    match number_in(id) {
        Ok(number) => Ok(limited("cliphist"@, seq!["decode"@, number], CLIPBOARD_TIMEOUT)),
        Err(fault) => Err(fault),
    }
}

pub fn decode_spec(entry_id: &StableId) -> (spec: Result<CommandSpec, SessionError>)
    ensures
        seen(spec) == decode_line(entry_id.0@),
{
    match numeric_entry(entry_id) {
        Ok(number) => {
            let spec = CommandSpec::new("cliphist").within(CLIPBOARD_TIMEOUT).arg("decode").arg(
                number.as_str(),
            );
            assert(spec@.args =~= seq!["decode"@, number@]);
            Ok(spec)
        },
        Err(error) => Err(error),
    }
}

pub struct EntryView {
    pub id: Seq<char>,
    pub mime_type: Seq<char>,
    pub preview: Seq<char>,
    pub byte_length: u64,
}

impl View for ClipboardEntry {
    type V = EntryView;

    open spec fn view(&self) -> EntryView {
        EntryView {
            id: self.id@,
            mime_type: self.mime_type@,
            preview: self.preview@,
            byte_length: self.byte_length,
        }
    }
}

/// The beginning of a text that is shown.
pub open spec fn preview_of(s: Seq<char>) -> Seq<char> {
    if s.len() > MAX_PREVIEW {
        s.take(MAX_PREVIEW as int)
    } else {
        s
    }
}

pub fn preview(s: &[char]) -> (shown: String)
    ensures
        shown@ == preview_of(s@),
{
    if s.len() > MAX_PREVIEW {
        let head = vstd::slice::slice_subrange(s, 0, MAX_PREVIEW);
        assert(head@ =~= s@.take(MAX_PREVIEW as int));
        string_of(head)
    } else {
        string_of(s)
    }
}

/// What a row of metadata adds: a number, a type, a text and a length, separated
/// by tabs.
pub open spec fn with_entry(found: Seq<EntryView>, line: Seq<char>) -> Result<
    Seq<EntryView>,
    Fault,
> {
    if line.len() == 0 {
        Ok(found)
    } else {
        let fields = split_limited(line, '\t', 4);
        if fields.len() != 4 || is_blank(fields[1]) {
            malformed("clipboard metadata row is malformed"@)
        } else {
            match entry_number(fields[0]) {
                Err(fault) => Err(fault),
                Ok(number) => match unsigned_value(fields[3], u64::MAX as int) {
                    None => malformed("clipboard length is invalid"@),
                    Some(byte_length) => if found.len() + 1 > MAX_ENTRIES {
                        malformed("clipboard history exceeds 500 entries"@)
                    } else {
                        Ok(
                            found.push(
                                EntryView {
                                    id: entry_identifier(number),
                                    mime_type: fields[1],
                                    preview: preview_of(fields[2]),
                                    byte_length: byte_length as u64,
                                },
                            ),
                        )
                    },
                },
            }
        }
    }
}

/// The entries in the metadata.
pub open spec fn entries_in(bytes: Seq<u8>) -> Result<Seq<EntryView>, Fault> {
    match text_in(bytes, "clipboard metadata is not UTF-8"@) {
        Err(fault) => Err(fault),
        Ok(text) => folded(
            lines(text),
            Seq::empty(),
            |found: Seq<EntryView>, line: Seq<char>| with_entry(found, line),
        ),
    }
}

fn take_entry(found: Vec<ClipboardEntry>, line: &[char]) -> (next: Result<
    Vec<ClipboardEntry>,
    SessionError,
>)
    ensures
        match next {
            Ok(next) => with_entry(views(found@), line@) == Ok::<Seq<EntryView>, Fault>(
                views(next@),
            ),
            Err(error) => with_entry(views(found@), line@) == Err::<Seq<EntryView>, Fault>(
                (error.kind, error.message@),
            ),
        },
{
    if line.len() == 0 {
        return Ok(found);
    }
    let fields = split_at_most(line, '\t', 4);
    assert(pieces(fields@).len() == fields@.len());
    assert forall|i: int| 0 <= i < fields@.len() implies #[trigger] pieces(fields@)[i]
        == fields@[i]@ by {}
    if fields.len() != 4 {
        return invalid("clipboard metadata row is malformed");
    }
    proof {
        trim_is_empty_iff_blank(fields@[1]@);
    }
    if trim_chars(fields[1].as_slice()).len() == 0 {
        return invalid("clipboard metadata row is malformed");
    }
    let number = match numeric(fields[0].as_slice()) {
        Ok(number) => number,
        Err(error) => return Err(error),
    };
    let byte_length: u64 = match parse_u64(fields[3].as_slice()) {
        Some(byte_length) => byte_length,
        None => return invalid("clipboard length is invalid"),
    };
    assert(views(found@).len() == found@.len());
    if found.len() >= MAX_ENTRIES {
        return invalid("clipboard history exceeds 500 entries");
    }
    let entry = ClipboardEntry {
        id: prefixed("clipboard:", chars_of(number.as_str()).as_slice()),
        mime_type: string_of(fields[1].as_slice()),
        preview: preview(fields[2].as_slice()),
        byte_length,
    };
    let mut next = found;
    proof {
        views_of_push(next@, entry);
    }
    next.push(entry);
    Ok(next)
}

pub fn parse_entries(bytes: &[u8]) -> (entries: Result<Vec<ClipboardEntry>, SessionError>)
    ensures
        match entries {
            Ok(entries) => entries_in(bytes@) == Ok::<Seq<EntryView>, Fault>(views(entries@)),
            Err(error) => entries_in(bytes@) == Err::<Seq<EntryView>, Fault>(
                (error.kind, error.message@),
            ),
        },
{
    let text = match read_text(bytes, "clipboard metadata is not UTF-8") {
        Ok(text) => text,
        Err(error) => return Err(error),
    };
    let rows = lines_of(text.as_slice());
    let ghost all = lines(text@);
    let ghost step = |found: Seq<EntryView>, line: Seq<char>| with_entry(found, line);
    let mut found: Vec<ClipboardEntry> = Vec::new();
    assert(views(found@) =~= Seq::empty());
    assert(all.skip(0) =~= all);
    for i in 0..rows.len()
        invariant
            all == pieces(rows@),
            step == (|found: Seq<EntryView>, line: Seq<char>| with_entry(found, line)),
            folded(all.skip(i as int), views(found@), step) == entries_in(bytes@),
    {
        proof {
            folded_step(all, i as int, views(found@), step);
            assert(all[i as int] == rows@[i as int]@);
        }
        found = match take_entry(found, rows[i].as_slice()) {
            Ok(next) => next,
            Err(error) => return Err(error),
        };
    }
    assert(all.len() == rows@.len());
    Ok(found)
}

/// A row of the list: the number of an entry and the beginning of its text.
pub struct ListRow {
    pub number: String,
    pub preview: String,
}

pub struct ListRowView {
    pub number: Seq<char>,
    pub preview: Seq<char>,
}

impl View for ListRow {
    type V = ListRowView;

    open spec fn view(&self) -> ListRowView {
        ListRowView { number: self.number@, preview: self.preview@ }
    }
}

/// What a line of the list adds.
pub open spec fn with_listed(found: Seq<ListRowView>, line: Seq<char>) -> Result<
    Seq<ListRowView>,
    Fault,
> {
    if line.len() == 0 {
        Ok(found)
    } else {
        let tab = first_index(line, '\t');
        if tab >= line.len() {
            malformed("cliphist row is malformed"@)
        } else {
            match entry_number(line.take(tab)) {
                Err(fault) => Err(fault),
                Ok(number) => if found.len() + 1 > MAX_ENTRIES {
                    malformed("clipboard history exceeds 500 entries"@)
                } else {
                    Ok(
                        found.push(
                            ListRowView { number, preview: preview_of(line.skip(tab + 1)) },
                        ),
                    )
                },
            }
        }
    }
}

/// The rows of the list.
pub open spec fn listed_in(bytes: Seq<u8>) -> Result<Seq<ListRowView>, Fault> {
    match text_in(bytes, "cliphist list is not UTF-8"@) {
        Err(fault) => Err(fault),
        Ok(text) => folded(
            lines(text),
            Seq::empty(),
            |found: Seq<ListRowView>, line: Seq<char>| with_listed(found, line),
        ),
    }
}

fn take_listed(found: Vec<ListRow>, line: &[char]) -> (next: Result<Vec<ListRow>, SessionError>)
    ensures
        match next {
            Ok(next) => with_listed(views(found@), line@) == Ok::<Seq<ListRowView>, Fault>(
                views(next@),
            ),
            Err(error) => with_listed(views(found@), line@) == Err::<Seq<ListRowView>, Fault>(
                (error.kind, error.message@),
            ),
        },
{
    if line.len() == 0 {
        return Ok(found);
    }
    proof {
        first_index_facts(line@, '\t');
    }
    let tab: usize = find_char(line, '\t');
    if tab >= line.len() {
        return invalid("cliphist row is malformed");
    }
    let head = vstd::slice::slice_subrange(line, 0, tab);
    let tail = vstd::slice::slice_subrange(line, tab + 1, line.len());
    assert(head@ =~= line@.take(tab as int));
    assert(tail@ =~= line@.skip(tab + 1));
    let number = match numeric(head) {
        Ok(number) => number,
        Err(error) => return Err(error),
    };
    assert(views(found@).len() == found@.len());
    if found.len() >= MAX_ENTRIES {
        return invalid("clipboard history exceeds 500 entries");
    }
    let row = ListRow { number, preview: preview(tail) };
    let mut next = found;
    proof {
        views_of_push(next@, row);
    }
    next.push(row);
    Ok(next)
}

pub fn parse_list(bytes: &[u8]) -> (listed: Result<Vec<ListRow>, SessionError>)
    ensures
        match listed {
            Ok(listed) => listed_in(bytes@) == Ok::<Seq<ListRowView>, Fault>(views(listed@)),
            Err(error) => listed_in(bytes@) == Err::<Seq<ListRowView>, Fault>(
                (error.kind, error.message@),
            ),
        },
{
    let text = match read_text(bytes, "cliphist list is not UTF-8") {
        Ok(text) => text,
        Err(error) => return Err(error),
    };
    let rows = lines_of(text.as_slice());
    let ghost all = lines(text@);
    let ghost step = |found: Seq<ListRowView>, line: Seq<char>| with_listed(found, line);
    let mut found: Vec<ListRow> = Vec::new();
    assert(views(found@) =~= Seq::empty());
    assert(all.skip(0) =~= all);
    for i in 0..rows.len()
        invariant
            all == pieces(rows@),
            step == (|found: Seq<ListRowView>, line: Seq<char>| with_listed(found, line)),
            folded(all.skip(i as int), views(found@), step) == listed_in(bytes@),
    {
        proof {
            folded_step(all, i as int, views(found@), step);
            assert(all[i as int] == rows@[i as int]@);
        }
        found = match take_listed(found, rows[i].as_slice()) {
            Ok(next) => next,
            Err(error) => return Err(error),
        };
    }
    assert(all.len() == rows@.len());
    Ok(found)
}

} // verus!

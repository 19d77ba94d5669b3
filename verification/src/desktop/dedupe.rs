//! The durable record of the commands that were begun and how they ended.
//!
//! A command is recorded before it is carried out and completed with its
//! outcome afterwards. What is in memory follows what is on disk: a change is
//! staged, written, and only then taken over.

use vstd::prelude::*;

use crate::error::{fails_with, fault_of, ErrorKind, Fault, SessionError};
use crate::ids::{is_canonical_uuid, parse_uuid, uuid_hyphenated, uuid_text, uuid_value};
use crate::paths::{
    absolute_path, components, from_root, is_absolute, name_views, path_components, path_from_root,
};
use crate::text::same_text;

use super::wire::{optional_text, DesktopResult, ResultView};

verus! {

/// The version of the document.
pub const DEDUPE_SCHEMA_VERSION: u32 = 1;

/// The largest document that is read or written, in bytes.
pub const MAX_DEDUPE_BYTES: usize = 4 * 1024 * 1024;

/// The directory and the name of the file at a path.
pub open spec fn file_place(path: Seq<u8>) -> Result<(Seq<u8>, Seq<u8>), Fault> {
    let names = components(path);
    if !is_absolute(path) {
        Err((ErrorKind::PermissionDenied, "desktop dedupe path must be absolute"@))
    } else if names.len() == 0 {
        Err((ErrorKind::InvalidInput, "desktop dedupe path has no parent"@))
    } else if names.last() == seq![0x2eu8, 0x2eu8] {
        Err((ErrorKind::InvalidInput, "desktop dedupe path has no name"@))
    } else {
        Ok((from_root(names.drop_last()), names.last()))
    }
}

/// The directory and the name of the file that the record is kept in.
pub fn dedupe_file_place(path: &[u8]) -> (place: Result<(Vec<u8>, Vec<u8>), SessionError>)
    ensures
        match place {
            Ok(place) => file_place(path@) == Ok::<(Seq<u8>, Seq<u8>), Fault>(
                (place.0@, place.1@),
            ),
            Err(error) => file_place(path@) == Err::<(Seq<u8>, Seq<u8>), Fault>(fault_of(error)),
        },
{
    if !absolute_path(path) {
        return Err(
            SessionError::new(
                ErrorKind::PermissionDenied,
                "desktop dedupe path must be absolute",
            ),
        );
    }
    let mut names = path_components(path);
    let ghost all = components(path@);
    let name = match names.pop() {
        Some(name) => name,
        None => {
            assert(all.len() == 0);
            return Err(
                SessionError::new(ErrorKind::InvalidInput, "desktop dedupe path has no parent"),
            );
        },
    };
    proof {
        assert(all.last() == name@);
        assert(name_views(names@) =~= all.drop_last());
    }
    if name.len() == 2 && name[0] == 0x2e && name[1] == 0x2e {
        assert(name@ =~= seq![0x2eu8, 0x2eu8]);
        return Err(SessionError::new(ErrorKind::InvalidInput, "desktop dedupe path has no name"));
    }
    Ok((path_from_root(&names), name))
}

pub struct DedupeRecord {
    pub request_id: String,
    pub result: Option<DesktopResult>,
}

pub struct RecordView {
    pub request_id: Seq<char>,
    pub result: Option<ResultView>,
}

impl View for DedupeRecord {
    type V = RecordView;

    open spec fn view(&self) -> RecordView {
        RecordView {
            request_id: self.request_id@,
            result: match self.result {
                Some(result) => Some(result@),
                None => None,
            },
        }
    }
}

impl DedupeRecord {
    pub fn copy(&self) -> (copy: DedupeRecord)
        ensures
            copy@ == self@,
    {
        DedupeRecord {
            request_id: self.request_id.clone(),
            result: match &self.result {
                Some(result) => Some(result.copy()),
                None => None,
            },
        }
    }

    fn same(&self, other: &DedupeRecord) -> (same: bool)
        ensures
            same == (self@ == other@),
    {
        same_text(self.request_id.as_str(), other.request_id.as_str()) && match (
            &self.result,
            &other.result,
        ) {
            (Some(left), Some(right)) => left.same(right),
            (None, None) => true,
            _ => false,
        }
    }
}

pub open spec fn record_views(records: Seq<DedupeRecord>) -> Seq<RecordView> {
    records.map_values(|record: DedupeRecord| record@)
}

/// The document that is written.
pub struct DedupeDocument {
    pub schema_version: u32,
    pub records: Vec<DedupeRecord>,
}

pub struct DedupeDocumentView {
    pub schema_version: u32,
    pub records: Seq<RecordView>,
}

impl View for DedupeDocument {
    type V = DedupeDocumentView;

    open spec fn view(&self) -> DedupeDocumentView {
        DedupeDocumentView {
            schema_version: self.schema_version,
            records: record_views(self.records@),
        }
    }
}

impl DedupeDocument {
    pub fn copy(&self) -> (copy: DedupeDocument)
        ensures
            copy@ == self@,
    {
        let mut records: Vec<DedupeRecord> = Vec::new();
        for i in 0..self.records.len()
            invariant
                record_views(records@) == record_views(self.records@).take(i as int),
        {
            let ghost done = records@;
            records.push(self.records[i].copy());
            assert(record_views(records@) =~= record_views(done).push(self.records@[i as int]@));
            assert(record_views(records@) =~= record_views(self.records@).take(i + 1));
        }
        assert(record_views(self.records@).take(self.records@.len() as int) =~= record_views(
            self.records@,
        ));
        DedupeDocument { schema_version: self.schema_version, records }
    }

    /// Whether two documents hold the same.
    pub fn same(&self, other: &DedupeDocument) -> (same: bool)
        ensures
            same == (self@ == other@),
    {
        if self.schema_version != other.schema_version || self.records.len()
            != other.records.len() {
            assert(self@.records.len() == self.records.len());
            assert(other@.records.len() == other.records.len());
            return false;
        }
        for i in 0..self.records.len()
            invariant
                self.records.len() == other.records.len(),
                forall|j: int|
                    0 <= j < i ==> record_views(self.records@)[j] == record_views(
                        other.records@,
                    )[j],
        {
            if !self.records[i].same(&other.records[i]) {
                assert(self@.records[i as int] != other@.records[i as int]);
                return false;
            }
        }
        assert(record_views(self.records@) =~= record_views(other.records@));
        true
    }
}

// ---------------------------------------------------------------------------
// Model
// ---------------------------------------------------------------------------

/// The place of the first record of a request, or the number of records.
pub open spec fn place_of(records: Seq<RecordView>, request_id: Seq<char>) -> int
    decreases records.len(),
{
    if records.len() == 0 {
        0
    } else if records[0].request_id == request_id {
        0
    } else {
        1 + place_of(records.skip(1), request_id)
    }
}

/// What is recorded of a request, if it is recorded.
pub open spec fn recorded(records: Seq<RecordView>, request_id: Seq<char>) -> Option<
    Option<ResultView>,
> {
    let at = place_of(records, request_id);
    if at < records.len() {
        Some(records[at].result)
    } else {
        None
    }
}

/// The place of the first record with an outcome, or the number of records.
pub open spec fn first_completed(records: Seq<RecordView>) -> int
    decreases records.len(),
{
    if records.len() == 0 {
        0
    } else if records[0].result is Some {
        0
    } else {
        1 + first_completed(records.skip(1))
    }
}

/// The records once the oldest completed ones have made room for one more, if
/// they can.
pub open spec fn with_room(records: Seq<RecordView>, maximum: nat) -> Option<Seq<RecordView>>
    decreases records.len(),
{
    if records.len() < maximum {
        Some(records)
    } else if first_completed(records) < records.len() && 0 <= first_completed(records) {
        with_room(records.remove(first_completed(records)), maximum)
    } else {
        None
    }
}

/// No request is recorded twice.
pub open spec fn distinct(records: Seq<RecordView>) -> bool {
    forall|i: int, j: int|
        #![trigger records[i], records[j]]
        0 <= i < j < records.len() ==> records[i].request_id != records[j].request_id
}

/// Every record has a canonical identifier, and its outcome has the same one.
pub open spec fn sound(record: RecordView) -> bool {
    &&& is_canonical_uuid(record.request_id)
    &&& record.result is Some ==> record.result->Some_0.request_id == record.request_id
}

pub open spec fn all_sound(records: Seq<RecordView>) -> bool {
    forall|i: int| 0 <= i < records.len() ==> sound(#[trigger] records[i])
}

/// What holds of the records at all times.
pub open spec fn valid_records(records: Seq<RecordView>, maximum: nat) -> bool {
    &&& records.len() <= maximum
    &&& distinct(records)
    &&& all_sound(records)
}

pub proof fn place_facts(records: Seq<RecordView>, request_id: Seq<char>)
    ensures
        0 <= place_of(records, request_id) <= records.len(),
        place_of(records, request_id) < records.len() ==> records[place_of(
            records,
            request_id,
        )].request_id == request_id,
        forall|i: int|
            0 <= i < place_of(records, request_id) ==> (#[trigger] records[i]).request_id
                != request_id,
    decreases records.len(),
{
    if records.len() > 0 && records[0].request_id != request_id {
        place_facts(records.skip(1), request_id);
        assert forall|i: int| 0 <= i < place_of(records, request_id) implies (
        #[trigger] records[i]).request_id != request_id by {
            if i > 0 {
                assert(records.skip(1)[i - 1] == records[i]);
            }
        }
    }
}

pub proof fn place_is(records: Seq<RecordView>, request_id: Seq<char>, at: int)
    requires
        0 <= at <= records.len(),
        at < records.len() ==> records[at].request_id == request_id,
        forall|i: int| 0 <= i < at ==> (#[trigger] records[i]).request_id != request_id,
    ensures
        place_of(records, request_id) == at,
{
    place_facts(records, request_id);
    let found = place_of(records, request_id);
    if found < at {
        assert(records[found].request_id != request_id);
    }
    if at < found {
        assert(records[at].request_id != request_id);
    }
}

pub proof fn completed_facts(records: Seq<RecordView>)
    ensures
        0 <= first_completed(records) <= records.len(),
        first_completed(records) < records.len() ==> records[first_completed(
            records,
        )].result is Some,
        forall|i: int|
            0 <= i < first_completed(records) ==> (#[trigger] records[i]).result is None,
    decreases records.len(),
{
    if records.len() > 0 && records[0].result is None {
        completed_facts(records.skip(1));
        assert forall|i: int| 0 <= i < first_completed(records) implies (
        #[trigger] records[i]).result is None by {
            if i > 0 {
                assert(records.skip(1)[i - 1] == records[i]);
            }
        }
    }
}

pub proof fn completed_is(records: Seq<RecordView>, at: int)
    requires
        0 <= at <= records.len(),
        at < records.len() ==> records[at].result is Some,
        forall|i: int| 0 <= i < at ==> (#[trigger] records[i]).result is None,
    ensures
        first_completed(records) == at,
{
    completed_facts(records);
    let found = first_completed(records);
    if found < at {
        assert(records[found].result is None);
    }
    if at < found {
        assert(records[at].result is None);
    }
}

/// Removing the first completed record keeps every other record.
proof fn removal_keeps(records: Seq<RecordView>, request_id: Seq<char>)
    requires
        distinct(records),
        first_completed(records) < records.len(),
    ensures
        distinct(records.remove(first_completed(records))),
        all_sound(records) ==> all_sound(records.remove(first_completed(records))),
        place_of(records, request_id) != first_completed(records) ==> recorded(
            records.remove(first_completed(records)),
            request_id,
        ) == recorded(records, request_id),
        recorded(records, request_id) is None ==> recorded(
            records.remove(first_completed(records)),
            request_id,
        ) is None,
{
    completed_facts(records);
    let gone = first_completed(records);
    let rest = records.remove(gone);
    assert forall|i: int, j: int|
        #![trigger rest[i], rest[j]]
        0 <= i < j < rest.len() implies rest[i].request_id != rest[j].request_id by {
        let a = if i < gone {
            i
        } else {
            i + 1
        };
        let b = if j < gone {
            j
        } else {
            j + 1
        };
        assert(rest[i] == records[a] && rest[j] == records[b]);
    }
    if all_sound(records) {
        assert forall|i: int| 0 <= i < rest.len() implies sound(#[trigger] rest[i]) by {
            assert(rest[i] == records[if i < gone {
                i
            } else {
                i + 1
            }]);
        }
    }
    place_facts(records, request_id);
    let at = place_of(records, request_id);
    if at != gone {
        let new = if at < gone {
            at
        } else {
            at - 1
        };
        assert forall|i: int| 0 <= i < new implies (#[trigger] rest[i]).request_id
            != request_id by {
            if i < gone {
                assert(rest[i] == records[i]);
            } else {
                assert(rest[i] == records[i + 1]);
            }
        }
        if at < records.len() {
            assert(rest[new] == records[at]);
        }
        place_is(rest, request_id, new);
    }
}

/// Making room keeps every record that has no outcome yet, and invents none.
pub proof fn making_room_keeps_pending(
    records: Seq<RecordView>,
    maximum: nat,
    request_id: Seq<char>,
)
    requires
        distinct(records),
        with_room(records, maximum) is Some,
    ensures
        ({
            let kept = with_room(records, maximum)->Some_0;
            &&& kept.len() < maximum
            &&& distinct(kept)
            &&& all_sound(records) ==> all_sound(kept)
            &&& recorded(records, request_id) == Some(None::<ResultView>) ==> recorded(
                kept,
                request_id,
            ) == Some(None::<ResultView>)
            &&& recorded(records, request_id) is None ==> recorded(kept, request_id) is None
        }),
    decreases records.len(),
{
    if records.len() >= maximum {
        completed_facts(records);
        removal_keeps(records, request_id);
        place_facts(records, request_id);
        let rest = records.remove(first_completed(records));
        making_room_keeps_pending(rest, maximum, request_id);
    }
}

/// A full record is only refused where every request in it is still pending.
pub proof fn room_is_refused_only_to_pending(records: Seq<RecordView>, maximum: nat)
    requires
        0 < maximum,
        records.len() <= maximum,
    ensures
        with_room(records, maximum) is None <==> records.len() == maximum && forall|i: int|
            0 <= i < records.len() ==> (#[trigger] records[i]).result is None,
{
    completed_facts(records);
    if records.len() == maximum && first_completed(records) < records.len() {
        let rest = records.remove(first_completed(records));
        assert(rest.len() < maximum);
        assert(with_room(rest, maximum) == Some(rest));
        assert(records[first_completed(records)].result is Some);
    }
}

/// The records once a request is begun.
pub open spec fn begun(records: Seq<RecordView>, request_id: Seq<char>) -> Seq<RecordView> {
    records.push(RecordView { request_id, result: None })
}

/// The records once the outcome of a request is known.
pub open spec fn completed(
    records: Seq<RecordView>,
    maximum: nat,
    result: ResultView,
) -> Option<Seq<RecordView>> {
    let at = place_of(records, result.request_id);
    let record = RecordView { request_id: result.request_id, result: Some(result) };
    if at < records.len() {
        Some(records.update(at, record))
    } else {
        match with_room(records, maximum) {
            Some(kept) => Some(kept.push(record)),
            None => None,
        }
    }
}

proof fn push_facts(records: Seq<RecordView>, record: RecordView)
    requires
        distinct(records),
        recorded(records, record.request_id) is None,
    ensures
        distinct(records.push(record)),
        recorded(records.push(record), record.request_id) == Some(record.result),
        all_sound(records) && sound(record) ==> all_sound(records.push(record)),
        forall|other: Seq<char>|
            other != record.request_id ==> #[trigger] recorded(records.push(record), other)
                == recorded(records, other),
{
    let longer = records.push(record);
    place_facts(records, record.request_id);
    assert forall|i: int, j: int|
        #![trigger longer[i], longer[j]]
        0 <= i < j < longer.len() implies longer[i].request_id != longer[j].request_id by {
        if j == records.len() {
            assert(longer[i] == records[i]);
        } else {
            assert(longer[i] == records[i] && longer[j] == records[j]);
        }
    }
    assert forall|i: int| 0 <= i < records.len() implies (#[trigger] longer[i]).request_id
        != record.request_id by {
        assert(longer[i] == records[i]);
    }
    place_is(longer, record.request_id, records.len() as int);
    if all_sound(records) && sound(record) {
        assert forall|i: int| 0 <= i < longer.len() implies sound(#[trigger] longer[i]) by {
            if i < records.len() {
                assert(longer[i] == records[i]);
            }
        }
    }
    assert forall|other: Seq<char>| other != record.request_id implies #[trigger] recorded(
        longer,
        other,
    ) == recorded(records, other) by {
        place_facts(records, other);
        let at = place_of(records, other);
        if at < records.len() {
            assert(longer[at] == records[at]);
            assert forall|i: int| 0 <= i < at implies (#[trigger] longer[i]).request_id
                != other by {
                assert(longer[i] == records[i]);
            }
            place_is(longer, other, at);
        } else {
            assert forall|i: int| 0 <= i < longer.len() implies (#[trigger] longer[i]).request_id
                != other by {
                if i < records.len() {
                    assert(longer[i] == records[i]);
                }
            }
            place_is(longer, other, longer.len() as int);
        }
    }
}

proof fn update_facts(records: Seq<RecordView>, record: RecordView)
    requires
        distinct(records),
        recorded(records, record.request_id) is Some,
    ensures
        ({
            let changed = records.update(place_of(records, record.request_id), record);
            &&& distinct(changed)
            &&& recorded(changed, record.request_id) == Some(record.result)
            &&& all_sound(records) && sound(record) ==> all_sound(changed)
            &&& forall|other: Seq<char>|
                other != record.request_id ==> #[trigger] recorded(changed, other) == recorded(
                    records,
                    other,
                )
        }),
{
    let place = place_of(records, record.request_id);
    let changed = records.update(place, record);
    place_facts(records, record.request_id);
    assert forall|i: int| 0 <= i < records.len() implies (#[trigger] changed[i]).request_id
        == records[i].request_id by {}
    assert forall|i: int, j: int|
        #![trigger changed[i], changed[j]]
        0 <= i < j < changed.len() implies changed[i].request_id != changed[j].request_id by {
        assert(records[i].request_id != records[j].request_id);
    }
    assert forall|i: int| 0 <= i < place implies (#[trigger] changed[i]).request_id
        != record.request_id by {
        assert(records[i].request_id != record.request_id);
    }
    place_is(changed, record.request_id, place);
    if all_sound(records) && sound(record) {
        assert forall|i: int| 0 <= i < changed.len() implies sound(#[trigger] changed[i]) by {
            assert(sound(records[i]));
        }
    }
    assert forall|other: Seq<char>| other != record.request_id implies #[trigger] recorded(
        changed,
        other,
    ) == recorded(records, other) by {
        place_facts(records, other);
        let at = place_of(records, other);
        assert forall|i: int| 0 <= i < at implies (#[trigger] changed[i]).request_id != other by {
            assert(records[i].request_id != other);
        }
        place_is(changed, other, at);
    }
}

/// A request that was begun is found again, pending, and every other pending
/// request still is.
pub proof fn begun_request_is_pending(
    records: Seq<RecordView>,
    maximum: nat,
    request_id: Seq<char>,
    other: Seq<char>,
)
    requires
        valid_records(records, maximum),
        is_canonical_uuid(request_id),
        recorded(records, request_id) is None,
        with_room(records, maximum) is Some,
    ensures
        ({
            let after = begun(with_room(records, maximum)->Some_0, request_id);
            &&& valid_records(after, maximum)
            &&& recorded(after, request_id) == Some(None::<ResultView>)
            &&& recorded(records, other) == Some(None::<ResultView>) ==> recorded(after, other)
                == Some(None::<ResultView>)
        }),
{
    making_room_keeps_pending(records, maximum, request_id);
    making_room_keeps_pending(records, maximum, other);
    let kept = with_room(records, maximum)->Some_0;
    push_facts(kept, RecordView { request_id, result: None });
}

/// A completed request is found again with its outcome, and every other pending
/// request is still pending.
pub proof fn completed_request_is_replayed(
    records: Seq<RecordView>,
    maximum: nat,
    result: ResultView,
    other: Seq<char>,
)
    requires
        valid_records(records, maximum),
        is_canonical_uuid(result.request_id),
        completed(records, maximum, result) is Some,
    ensures
        ({
            let after = completed(records, maximum, result)->Some_0;
            &&& valid_records(after, maximum)
            &&& recorded(after, result.request_id) == Some(Some(result))
            &&& other != result.request_id && recorded(records, other) == Some(
                None::<ResultView>,
            ) ==> recorded(after, other) == Some(None::<ResultView>)
        }),
{
    let record = RecordView { request_id: result.request_id, result: Some(result) };
    place_facts(records, result.request_id);
    if recorded(records, result.request_id) is Some {
        update_facts(records, record);
    } else {
        making_room_keeps_pending(records, maximum, result.request_id);
        making_room_keeps_pending(records, maximum, other);
        let kept = with_room(records, maximum)->Some_0;
        push_facts(kept, record);
    }
}

/// A request that is pending can always be completed.
pub proof fn pending_request_can_be_completed(
    records: Seq<RecordView>,
    maximum: nat,
    result: ResultView,
)
    requires
        recorded(records, result.request_id) is Some,
    ensures
        completed(records, maximum, result) is Some,
{
}

// ---------------------------------------------------------------------------
// The record in memory
// ---------------------------------------------------------------------------

/// Why an identifier is refused, if it is.
pub open spec fn identifier_fault(request_id: Seq<char>) -> Option<Seq<char>> {
    if uuid_value(request_id) is None {
        Some("desktop dedupe requestId is not a UUID"@)
    } else if uuid_hyphenated(uuid_value(request_id)->Some_0) != request_id {
        Some("desktop dedupe requestId is not canonical"@)
    } else {
        None
    }
}

pub fn validate_canonical_request_id(request_id: &str) -> (checked: Result<(), SessionError>)
    ensures
        match identifier_fault(request_id@) {
            Some(fault) => fails_with(checked, ErrorKind::InvalidData, fault),
            None => checked is Ok,
        },
        checked is Ok <==> is_canonical_uuid(request_id@),
{
    match parse_uuid(request_id) {
        None => Err(
            SessionError::new(ErrorKind::InvalidData, "desktop dedupe requestId is not a UUID"),
        ),
        Some(value) => {
            if !same_text(uuid_text(value).as_str(), request_id) {
                return Err(
                    SessionError::new(
                        ErrorKind::InvalidData,
                        "desktop dedupe requestId is not canonical",
                    ),
                );
            }
            Ok(())
        },
    }
}

/// A document that was read, with what the protocol validator says of the
/// outcome of each record: nothing, or the text of its rejection.
pub struct LoadedDocument {
    pub document: DedupeDocument,
    pub rejections: Vec<Option<String>>,
}

/// What was found on disk.
pub enum StoredDocument {
    /// There is no document yet.
    Missing,
    /// The document is this many bytes long and was not read as one.
    Malformed { size: usize, reason: String },
    /// The document is this many bytes long.
    Read { size: usize, loaded: LoadedDocument },
}

/// Why a record is refused when it is read, if it is.
pub open spec fn record_fault(record: RecordView, rejection: Option<Seq<char>>) -> Option<
    Seq<char>,
> {
    if identifier_fault(record.request_id) is Some {
        identifier_fault(record.request_id)
    } else if record.result is None {
        None
    } else if rejection is Some {
        rejection
    } else if record.result->Some_0.request_id != record.request_id {
        Some("desktop dedupe key/result requestId mismatch"@)
    } else {
        None
    }
}

/// The fault of the first record that has one.
pub open spec fn first_fault(records: Seq<RecordView>, rejections: Seq<Option<String>>) -> Option<
    Seq<char>,
>
    decreases records.len(),
{
    if records.len() == 0 {
        None
    } else {
        match record_fault(records[0], super::wire::optional_text(rejections[0])) {
            Some(fault) => Some(fault),
            None => first_fault(records.skip(1), rejections.skip(1)),
        }
    }
}

/// Why a document is refused, if it is.
pub open spec fn document_fault(stored: StoredDocument, maximum: nat) -> Option<Seq<char>> {
    match stored {
        StoredDocument::Missing => None,
        StoredDocument::Malformed { size, reason } => if size > MAX_DEDUPE_BYTES {
            Some("desktop dedupe document exceeds its bounded size"@)
        } else {
            Some(reason@)
        },
        StoredDocument::Read { size, loaded } => {
            let document = loaded.document@;
            if size > MAX_DEDUPE_BYTES {
                Some("desktop dedupe document exceeds its bounded size"@)
            } else if document.schema_version != DEDUPE_SCHEMA_VERSION || document.records.len()
                > maximum {
                Some("desktop dedupe document violates its schema or capacity"@)
            } else if !distinct(document.records) {
                Some("desktop dedupe document contains duplicate request IDs"@)
            } else {
                first_fault(document.records, loaded.rejections@)
            }
        },
    }
}

/// What was written of the document that was staged, and what was found on disk
/// after a failure.
pub enum WriteReport {
    /// The document is on disk.
    Replaced,
    /// The write failed. The document that is on disk could be read, or not; the
    /// directory was synced again only where it is the one that was staged.
    Failed { error: String, on_disk: Option<DedupeDocument>, sync_error: Option<String> },
}

/// Whether what is on disk after a failed write is what was staged.
pub open spec fn landed(on_disk: Option<DedupeDocument>, staged: DedupeDocumentView) -> bool {
    on_disk is Some && on_disk->Some_0@ == staged
}

/// Whether a write took effect for good.
pub open spec fn took_effect(report: WriteReport, staged: DedupeDocumentView) -> bool {
    match report {
        WriteReport::Replaced => true,
        WriteReport::Failed { error, on_disk, sync_error } => landed(on_disk, staged)
            && sync_error is None,
    }
}

/// Whether an outcome tells what became of a write.
pub open spec fn told_of(
    report: WriteReport,
    staged: DedupeDocumentView,
    done: Result<(), SessionError>,
) -> bool {
    &&& done is Ok <==> took_effect(report, staged)
    &&& match report {
        WriteReport::Replaced => true,
        WriteReport::Failed { error, on_disk, sync_error } => if landed(on_disk, staged) {
            sync_error is Some ==> fails_with(done, ErrorKind::Other, sync_error->Some_0@)
        } else {
            fails_with(done, ErrorKind::Other, error@)
        },
    }
}

/// A document of records.
pub open spec fn document_of(records: Seq<RecordView>) -> DedupeDocumentView {
    DedupeDocumentView { schema_version: DEDUPE_SCHEMA_VERSION, records }
}

/// The records with a request that is about to be carried out, or why it is refused.
pub open spec fn begin_outcome(
    records: Seq<RecordView>,
    capacity: nat,
    request_id: Seq<char>,
) -> Result<Seq<RecordView>, Fault> {
    if identifier_fault(request_id) is Some {
        Err((ErrorKind::InvalidData, identifier_fault(request_id)->Some_0))
    } else if recorded(records, request_id) is Some {
        Err((ErrorKind::AlreadyExists, "desktop request is already recorded"@))
    } else {
        match with_room(records, capacity) {
            None => Err(
                (
                    ErrorKind::WouldBlock,
                    "desktop dedupe capacity is occupied by pending requests"@,
                ),
            ),
            Some(kept) => Ok(begun(kept, request_id)),
        }
    }
}

/// The records with the outcome of a request, or why it is refused.
pub open spec fn complete_outcome(
    records: Seq<RecordView>,
    capacity: nat,
    request_id: Seq<char>,
    result: ResultView,
    rejection: Option<Seq<char>>,
) -> Result<Seq<RecordView>, Fault> {
    if identifier_fault(request_id) is Some {
        Err((ErrorKind::InvalidData, identifier_fault(request_id)->Some_0))
    } else if rejection is Some {
        Err((ErrorKind::InvalidData, rejection->Some_0))
    } else if result.request_id != request_id {
        Err((ErrorKind::InvalidInput, "desktop dedupe key/result requestId mismatch"@))
    } else {
        match completed(records, capacity, result) {
            None => Err(
                (
                    ErrorKind::WouldBlock,
                    "desktop dedupe capacity is occupied by pending requests"@,
                ),
            ),
            Some(records) => Ok(records),
        }
    }
}

/// Whether a report tells what is on disk after a write over `before`.
pub open spec fn reports(
    report: WriteReport,
    before: DedupeDocumentView,
    staged: DedupeDocumentView,
    disk: DedupeDocumentView,
) -> bool {
    match report {
        WriteReport::Replaced => disk == staged,
        WriteReport::Failed { error, on_disk, sync_error } => {
            &&& disk == before || disk == staged
            &&& on_disk is Some ==> on_disk->Some_0@ == disk
        },
    }
}

/// Memory is never ahead of disk: after a write, whatever became of it, memory
/// holds what is on disk, or still what it held before.
pub proof fn memory_is_never_ahead_of_disk(
    before: DedupeDocumentView,
    staged: DedupeDocumentView,
    report: WriteReport,
    disk: DedupeDocumentView,
)
    requires
        reports(report, before, staged, disk),
    ensures
        took_effect(report, staged) ==> disk == staged,
        !took_effect(report, staged) ==> disk == before || disk == staged,
{
}

/// The disk that the record is kept on: how a document is encoded, how the file is
/// replaced by bytes, what is read back of it, and how its directory is synced.
pub struct DedupeDisk<E, P, L, S> {
    pub encode: E,
    pub replace: P,
    pub reread: L,
    pub sync: S,
}

/// Whether a write to a disk leads to a report. The file is replaced only by bytes
/// that are not too long. Where that fails the file is read back, and where it holds
/// the document all the same its directory is synced again.
pub open spec fn reported_by<
    E: FnOnce(&DedupeDocument) -> Result<Vec<u8>, SessionError>,
    P: FnOnce(&Vec<u8>) -> Result<(), SessionError>,
    L: FnOnce() -> Option<DedupeDocument>,
    S: FnOnce() -> Result<(), SessionError>,
>(
    disk: DedupeDisk<E, P, L, S>,
    staged: DedupeDocumentView,
    report: Result<WriteReport, SessionError>,
) -> bool {
    exists|document: &DedupeDocument, encoded: Result<Vec<u8>, SessionError>| #[trigger]
        call_ensures(disk.encode, (document,), encoded) && document@ == staged && match encoded {
            Err(error) => report == Err::<WriteReport, SessionError>(error),
            Ok(bytes) => if bytes@.len() > MAX_DEDUPE_BYTES {
                fails_with(
                    report,
                    ErrorKind::InvalidData,
                    "desktop dedupe document exceeds its bounded size"@,
                )
            } else {
                report is Ok && replaced_by(disk, staged, bytes, report->Ok_0)
            },
        }
}

/// Whether replacing the file by bytes leads to a report.
pub open spec fn replaced_by<
    E: FnOnce(&DedupeDocument) -> Result<Vec<u8>, SessionError>,
    P: FnOnce(&Vec<u8>) -> Result<(), SessionError>,
    L: FnOnce() -> Option<DedupeDocument>,
    S: FnOnce() -> Result<(), SessionError>,
>(
    disk: DedupeDisk<E, P, L, S>,
    staged: DedupeDocumentView,
    bytes: Vec<u8>,
    report: WriteReport,
) -> bool {
    exists|replaced: Result<(), SessionError>| #[trigger]
        call_ensures(disk.replace, (&bytes,), replaced) && match replaced {
            Ok(()) => report is Replaced,
            Err(error) => report matches WriteReport::Failed { error: text, on_disk, sync_error }
                && text == error.message && call_ensures(disk.reread, (), on_disk) && (if landed(
                on_disk,
                staged,
            ) {
                synced_as(disk.sync, sync_error)
            } else {
                sync_error is None
            }),
        }
}

/// Whether syncing a directory can fail with a text, or succeed.
pub open spec fn synced_as<S: FnOnce() -> Result<(), SessionError>>(
    sync: S,
    failure: Option<String>,
) -> bool {
    exists|synced: Result<(), SessionError>| #[trigger]
        call_ensures(sync, (), synced) && match synced {
            Ok(()) => failure is None,
            Err(error) => failure == Some(error.message),
        }
}

/// Whether a document may be written to a disk, each step when the one before asks
/// for it.
pub open spec fn may_persist<
    E: FnOnce(&DedupeDocument) -> Result<Vec<u8>, SessionError>,
    P: FnOnce(&Vec<u8>) -> Result<(), SessionError>,
    L: FnOnce() -> Option<DedupeDocument>,
    S: FnOnce() -> Result<(), SessionError>,
>(disk: DedupeDisk<E, P, L, S>, staged: DedupeDocumentView) -> bool {
    &&& forall|document: &DedupeDocument|
        document@ == staged ==> #[trigger] call_requires(disk.encode, (document,))
    &&& forall|document: &DedupeDocument, bytes: Vec<u8>|
        #![trigger call_ensures(disk.encode, (document,), Ok::<Vec<u8>, SessionError>(bytes))]
        document@ == staged && call_ensures(
            disk.encode,
            (document,),
            Ok::<Vec<u8>, SessionError>(bytes),
        ) && bytes@.len() <= MAX_DEDUPE_BYTES ==> call_requires(disk.replace, (&bytes,))
    &&& (exists|bytes: &Vec<u8>, replaced: Result<(), SessionError>| #[trigger]
        call_ensures(disk.replace, (bytes,), replaced) && replaced is Err) ==> call_requires(
        disk.reread,
        (),
    )
    &&& (exists|on_disk: Option<DedupeDocument>| #[trigger]
        call_ensures(disk.reread, (), on_disk) && landed(on_disk, staged)) ==> call_requires(
        disk.sync,
        (),
    )
}

/// Writes a document to a disk.
fn write_out<
    E: FnOnce(&DedupeDocument) -> Result<Vec<u8>, SessionError>,
    P: FnOnce(&Vec<u8>) -> Result<(), SessionError>,
    L: FnOnce() -> Option<DedupeDocument>,
    S: FnOnce() -> Result<(), SessionError>,
>(disk: DedupeDisk<E, P, L, S>, staged: &DedupeDocument) -> (report: Result<
    WriteReport,
    SessionError,
>)
    requires
        may_persist(disk, staged@),
    ensures
        reported_by(disk, staged@, report),
{
    let encoded = (disk.encode)(staged);
    let ghost given = encoded;
    assert(call_ensures(disk.encode, (staged,), given));
    let bytes = match encoded {
        Ok(bytes) => bytes,
        Err(error) => return Err(error),
    };
    if let Err(error) = check_size(bytes.len()) {
        return Err(error);
    }
    let replaced = (disk.replace)(&bytes);
    let ghost ended = replaced;
    let report = match replaced {
        Ok(()) => WriteReport::Replaced,
        Err(error) => {
            let on_disk = (disk.reread)();
            let sync_error = if must_sync(staged, &on_disk) {
                let synced = (disk.sync)();
                let ghost told = synced;
                let failure = match synced {
                    Ok(()) => None,
                    Err(error) => Some(error.message),
                };
                assert(call_ensures(disk.sync, (), told));
                assert(synced_as(disk.sync, failure));
                failure
            } else {
                None
            };
            WriteReport::Failed { error: error.message, on_disk, sync_error }
        },
    };
    assert(call_ensures(disk.replace, (&bytes,), ended));
    assert(replaced_by(disk, staged@, bytes, report));
    Ok(report)
}

/// The record of the commands, in memory.
pub struct DurableDedupe {
    maximum_records: usize,
    document: DedupeDocument,
}

impl DurableDedupe {
    pub closed spec fn capacity(&self) -> nat {
        self.maximum_records as nat
    }

    pub closed spec fn records(&self) -> Seq<RecordView> {
        self.document@.records
    }

    pub closed spec fn held(&self) -> DedupeDocumentView {
        self.document@
    }

    pub open spec fn wf(&self) -> bool {
        &&& valid_records(self.records(), self.capacity())
        &&& self.held() == (DedupeDocumentView {
            schema_version: DEDUPE_SCHEMA_VERSION,
            records: self.records(),
        })
    }

    /// Takes over what was found on disk.
    pub fn open(stored: StoredDocument, maximum_records: usize) -> (dedupe: Result<
        DurableDedupe,
        SessionError,
    >)
        requires
            stored is Read ==> stored->loaded.rejections@.len()
                == stored->loaded.document.records@.len(),
        ensures
            match document_fault(stored, maximum_records as nat) {
                Some(fault) => fails_with(dedupe, ErrorKind::InvalidData, fault),
                None => {
                    &&& dedupe is Ok
                    &&& dedupe->Ok_0.wf()
                    &&& dedupe->Ok_0.capacity() == maximum_records
                    &&& dedupe->Ok_0.records() == match stored {
                        StoredDocument::Read { size, loaded } => loaded.document@.records,
                        _ => Seq::empty(),
                    }
                },
            },
    {
        match stored {
            StoredDocument::Missing => {
                let document = DedupeDocument {
                    schema_version: DEDUPE_SCHEMA_VERSION,
                    records: Vec::new(),
                };
                assert(document@.records =~= Seq::empty());
                Ok(DurableDedupe { maximum_records, document })
            },
            StoredDocument::Malformed { size, reason } => {
                if size > MAX_DEDUPE_BYTES {
                    return Err(
                        SessionError::new(
                            ErrorKind::InvalidData,
                            "desktop dedupe document exceeds its bounded size",
                        ),
                    );
                }
                Err(SessionError { kind: ErrorKind::InvalidData, message: reason })
            },
            StoredDocument::Read { size, loaded } => {
                if size > MAX_DEDUPE_BYTES {
                    return Err(
                        SessionError::new(
                            ErrorKind::InvalidData,
                            "desktop dedupe document exceeds its bounded size",
                        ),
                    );
                }
                assert(loaded.document@.records.len() == loaded.document.records@.len());
                if loaded.document.schema_version != DEDUPE_SCHEMA_VERSION
                    || loaded.document.records.len() > maximum_records {
                    return Err(
                        SessionError::new(
                            ErrorKind::InvalidData,
                            "desktop dedupe document violates its schema or capacity",
                        ),
                    );
                }
                if !distinct_requests(&loaded.document.records) {
                    return Err(
                        SessionError::new(
                            ErrorKind::InvalidData,
                            "desktop dedupe document contains duplicate request IDs",
                        ),
                    );
                }
                match check_records(&loaded.document.records, &loaded.rejections) {
                    Err(error) => Err(error),
                    Ok(()) => Ok(DurableDedupe { maximum_records, document: loaded.document }),
                }
            },
        }
    }

    /// The place of the record of a request, or the number of records.
    fn find(&self, request_id: &str) -> (at: usize)
        ensures
            at == place_of(self.document@.records, request_id@),
            at <= self.document.records.len(),
    {
        let mut i: usize = 0;
        while i < self.document.records.len()
            invariant
                i <= self.document.records.len(),
                forall|j: int|
                    0 <= j < i ==> (#[trigger] self.document@.records[j]).request_id
                        != request_id@,
            decreases self.document.records.len() - i,
        {
            assert(self.document@.records[i as int] == self.document.records@[i as int]@);
            if same_text(self.document.records[i].request_id.as_str(), request_id) {
                proof {
                    place_is(self.document@.records, request_id@, i as int);
                }
                return i;
            }
            i = i + 1;
        }
        proof {
            place_is(self.document@.records, request_id@, i as int);
        }
        i
    }

    /// What is recorded of a request, if it is recorded.
    pub fn lookup(&self, request_id: &str) -> (found: Option<Option<DesktopResult>>)
        ensures
            match found {
                None => recorded(self.records(), request_id@) is None,
                Some(None) => recorded(self.records(), request_id@) == Some(None::<ResultView>),
                Some(Some(result)) => recorded(self.records(), request_id@) == Some(
                    Some(result@),
                ),
            },
    {
        let at: usize = self.find(request_id);
        if at < self.document.records.len() {
            assert(self.document@.records[at as int] == self.document.records@[at as int]@);
            match &self.document.records[at].result {
                Some(result) => Some(Some(result.copy())),
                None => Some(None),
            }
        } else {
            None
        }
    }

    /// Stages the record of a request that is about to be carried out.
    fn stage_begin(&self, request_id: String) -> (staged: Result<DedupeDocument, SessionError>)
        requires
            self.wf(),
        ensures
            match begin_outcome(self.records(), self.capacity(), request_id@) {
                Err(fault) => fails_with(staged, fault.0, fault.1),
                Ok(records) => {
                    &&& staged is Ok
                    &&& staged->Ok_0@ == document_of(records)
                    &&& valid_records(records, self.capacity())
                },
            },
    {
        match validate_canonical_request_id(request_id.as_str()) {
            Ok(()) => {},
            Err(error) => return Err(error),
        }
        if self.lookup(request_id.as_str()).is_some() {
            return Err(
                SessionError::new(ErrorKind::AlreadyExists, "desktop request is already recorded"),
            );
        }
        let mut staged = self.document.copy();
        match make_room(&mut staged, self.maximum_records) {
            Ok(()) => {},
            Err(error) => return Err(error),
        }
        proof {
            begun_request_is_pending(self.records(), self.capacity(), request_id@, request_id@);
        }
        let ghost before = staged@.records;
        let record = DedupeRecord { request_id, result: None };
        let ghost view = record@;
        staged.records.push(record);
        assert(staged@.records =~= before.push(view));
        Ok(staged)
    }

    /// Stages the outcome of a request. The protocol validator rejects the
    /// outcome with a text, or not.
    fn stage_complete(
        &self,
        request_id: &str,
        result: DesktopResult,
        rejection: Option<String>,
    ) -> (staged: Result<DedupeDocument, SessionError>)
        requires
            self.wf(),
        ensures
            match complete_outcome(
                self.records(),
                self.capacity(),
                request_id@,
                result@,
                optional_text(rejection),
            ) {
                Err(fault) => fails_with(staged, fault.0, fault.1),
                Ok(records) => {
                    &&& staged is Ok
                    &&& staged->Ok_0@ == document_of(records)
                    &&& valid_records(records, self.capacity())
                },
            },
    {
        match validate_canonical_request_id(request_id) {
            Ok(()) => {},
            Err(error) => return Err(error),
        }
        match rejection {
            Some(text) => return Err(
                SessionError { kind: ErrorKind::InvalidData, message: text },
            ),
            None => {},
        }
        if !same_text(result.request_id.as_str(), request_id) {
            return Err(
                SessionError::new(
                    ErrorKind::InvalidInput,
                    "desktop dedupe key/result requestId mismatch",
                ),
            );
        }
        proof {
            if completed(self.records(), self.capacity(), result@) is Some {
                completed_request_is_replayed(
                    self.records(),
                    self.capacity(),
                    result@,
                    request_id@,
                );
            }
        }
        let mut staged = self.document.copy();
        let at: usize = self.find(request_id);
        let record = DedupeRecord { request_id: request_id.to_owned(), result: Some(result) };
        let ghost view = record@;
        assert(staged@.records.len() == staged.records@.len());
        assert(self.document@.records.len() == self.document.records@.len());
        if at < self.document.records.len() {
            let ghost before = staged@.records;
            staged.records.set(at, record);
            assert(staged@.records =~= before.update(at as int, view));
        } else {
            match make_room(&mut staged, self.maximum_records) {
                Ok(()) => {},
                Err(error) => return Err(error),
            }
            let ghost before = staged@.records;
            staged.records.push(record);
            assert(staged@.records =~= before.push(view));
        }
        Ok(staged)
    }

    /// Whether a document is taken over: when it was written for good, and only then.
    pub open spec fn persisted<
        E: FnOnce(&DedupeDocument) -> Result<Vec<u8>, SessionError>,
        P: FnOnce(&Vec<u8>) -> Result<(), SessionError>,
        L: FnOnce() -> Option<DedupeDocument>,
        S: FnOnce() -> Result<(), SessionError>,
    >(
        before: DurableDedupe,
        records: Seq<RecordView>,
        disk: DedupeDisk<E, P, L, S>,
        done: Result<(), SessionError>,
        after: DurableDedupe,
    ) -> bool {
        &&& after.capacity() == before.capacity()
        &&& exists|report: Result<WriteReport, SessionError>| #[trigger]
            reported_by(disk, document_of(records), report) && match report {
                Err(error) => {
                    &&& done == Err::<(), SessionError>(error)
                    &&& after.records() == before.records()
                },
                Ok(report) => {
                    &&& told_of(report, document_of(records), done)
                    &&& after.records() == if took_effect(report, document_of(records)) {
                        records
                    } else {
                        before.records()
                    }
                },
            }
    }

    /// Records a request that is about to be carried out: it is in the record when it
    /// is on the disk, and not before.
    pub fn begin<
        E: FnOnce(&DedupeDocument) -> Result<Vec<u8>, SessionError>,
        P: FnOnce(&Vec<u8>) -> Result<(), SessionError>,
        L: FnOnce() -> Option<DedupeDocument>,
        S: FnOnce() -> Result<(), SessionError>,
    >(&mut self, request_id: String, disk: DedupeDisk<E, P, L, S>) -> (done: Result<
        (),
        SessionError,
    >)
        requires
            old(self).wf(),
            begin_outcome(old(self).records(), old(self).capacity(), request_id@) matches Ok(
                records,
            ) ==> may_persist(disk, document_of(records)),
        ensures
            final(self).wf(),
            match begin_outcome(old(self).records(), old(self).capacity(), request_id@) {
                Err(fault) => fails_with(done, fault.0, fault.1) && *final(self) == *old(self),
                Ok(records) => Self::persisted(*old(self), records, disk, done, *final(self)),
            },
    {
        match self.stage_begin(request_id) {
            Ok(staged) => self.persist(staged, disk),
            Err(error) => Err(error),
        }
    }

    /// Records the outcome of a request: it is in the record when it is on the disk,
    /// and not before. The protocol validator rejects the outcome with a text, or not.
    pub fn complete<
        E: FnOnce(&DedupeDocument) -> Result<Vec<u8>, SessionError>,
        P: FnOnce(&Vec<u8>) -> Result<(), SessionError>,
        L: FnOnce() -> Option<DedupeDocument>,
        S: FnOnce() -> Result<(), SessionError>,
    >(
        &mut self,
        request_id: &str,
        result: DesktopResult,
        rejection: Option<String>,
        disk: DedupeDisk<E, P, L, S>,
    ) -> (done: Result<(), SessionError>)
        requires
            old(self).wf(),
            complete_outcome(
                old(self).records(),
                old(self).capacity(),
                request_id@,
                result@,
                optional_text(rejection),
            ) matches Ok(records) ==> may_persist(disk, document_of(records)),
        ensures
            final(self).wf(),
            match complete_outcome(
                old(self).records(),
                old(self).capacity(),
                request_id@,
                result@,
                optional_text(rejection),
            ) {
                Err(fault) => fails_with(done, fault.0, fault.1) && *final(self) == *old(self),
                Ok(records) => Self::persisted(*old(self), records, disk, done, *final(self)),
            },
    {
        match self.stage_complete(request_id, result, rejection) {
            Ok(staged) => self.persist(staged, disk),
            Err(error) => Err(error),
        }
    }

    fn persist<
        E: FnOnce(&DedupeDocument) -> Result<Vec<u8>, SessionError>,
        P: FnOnce(&Vec<u8>) -> Result<(), SessionError>,
        L: FnOnce() -> Option<DedupeDocument>,
        S: FnOnce() -> Result<(), SessionError>,
    >(&mut self, staged: DedupeDocument, disk: DedupeDisk<E, P, L, S>) -> (done: Result<
        (),
        SessionError,
    >)
        requires
            old(self).wf(),
            staged@ == document_of(staged@.records),
            valid_records(staged@.records, old(self).capacity()),
            may_persist(disk, staged@),
        ensures
            final(self).wf(),
            Self::persisted(*old(self), staged@.records, disk, done, *final(self)),
    {
        let ghost records = staged@.records;
        let report = write_out(disk, &staged);
        assert(reported_by(disk, document_of(records), report));
        match report {
            Ok(report) => self.commit(staged, report),
            Err(error) => Err(error),
        }
    }

    /// Takes over what was staged once it is on disk.
    fn commit(&mut self, staged: DedupeDocument, report: WriteReport) -> (done: Result<
        (),
        SessionError,
    >)
        requires
            old(self).wf(),
            staged@.schema_version == DEDUPE_SCHEMA_VERSION,
            valid_records(staged@.records, old(self).capacity()),
        ensures
            final(self).wf(),
            final(self).capacity() == old(self).capacity(),
            final(self).records() == if took_effect(report, staged@) {
                staged@.records
            } else {
                old(self).records()
            },
            told_of(report, staged@, done),
    {
        match report {
            WriteReport::Replaced => {},
            WriteReport::Failed { error, on_disk, sync_error } => {
                if !must_sync(&staged, &on_disk) {
                    return Err(SessionError { kind: ErrorKind::Other, message: error });
                }
                match sync_error {
                    Some(text) => return Err(
                        SessionError { kind: ErrorKind::Other, message: text },
                    ),
                    None => {},
                }
            },
        }
        self.document = staged;
        Ok(())
    }

    /// The document that is held.
    pub fn document(&self) -> (document: &DedupeDocument)
        ensures
            document@ == self.held(),
    {
        &self.document
    }
}

/// Whether the directory has to be synced after a failed write: what was staged
/// is on disk all the same.
pub fn must_sync(staged: &DedupeDocument, on_disk: &Option<DedupeDocument>) -> (sync: bool)
    ensures
        sync == landed(*on_disk, staged@),
{
    match on_disk {
        Some(document) => document.same(staged),
        None => false,
    }
}

/// Refuses to write a document that is too long.
pub fn check_size(size: usize) -> (checked: Result<(), SessionError>)
    ensures
        if size > MAX_DEDUPE_BYTES {
            fails_with(
                checked,
                ErrorKind::InvalidData,
                "desktop dedupe document exceeds its bounded size"@,
            )
        } else {
            checked is Ok
        },
{
    if size > MAX_DEDUPE_BYTES {
        return Err(
            SessionError::new(
                ErrorKind::InvalidData,
                "desktop dedupe document exceeds its bounded size",
            ),
        );
    }
    Ok(())
}

/// Whether no request is recorded twice.
fn distinct_requests(records: &Vec<DedupeRecord>) -> (all_distinct: bool)
    ensures
        all_distinct == distinct(record_views(records@)),
{
    let ghost views = record_views(records@);
    let mut j: usize = 0;
    while j < records.len()
        invariant
            j <= records.len(),
            views == record_views(records@),
            forall|a: int, b: int|
                #![trigger views[a], views[b]]
                0 <= a < b < j ==> views[a].request_id != views[b].request_id,
        decreases records.len() - j,
    {
        let mut i: usize = 0;
        while i < j
            invariant
                i <= j < records.len(),
                views == record_views(records@),
                forall|a: int|
                    0 <= a < i ==> (#[trigger] views[a]).request_id != views[j as int].request_id,
            decreases j - i,
        {
            assert(views[i as int] == records@[i as int]@);
            assert(views[j as int] == records@[j as int]@);
            if same_text(records[i].request_id.as_str(), records[j].request_id.as_str()) {
                assert(!distinct(views));
                return false;
            }
            i = i + 1;
        }
        j = j + 1;
    }
    true
}

/// Checks each record in turn.
fn check_records(records: &Vec<DedupeRecord>, rejections: &Vec<Option<String>>) -> (checked: Result<
    (),
    SessionError,
>)
    requires
        rejections@.len() == records@.len(),
    ensures
        match first_fault(record_views(records@), rejections@) {
            Some(fault) => fails_with(checked, ErrorKind::InvalidData, fault),
            None => checked is Ok,
        },
        checked is Ok ==> all_sound(record_views(records@)),
{
    let ghost views = record_views(records@);
    let mut i: usize = 0;
    assert(views.skip(0) =~= views);
    assert(rejections@.skip(0) =~= rejections@);
    while i < records.len()
        invariant
            i <= records.len(),
            rejections@.len() == records@.len(),
            views == record_views(records@),
            first_fault(views, rejections@) == first_fault(
                views.skip(i as int),
                rejections@.skip(i as int),
            ),
            forall|j: int| 0 <= j < i ==> sound(#[trigger] views[j]),
        decreases records.len() - i,
    {
        assert(views.skip(i as int)[0] == records@[i as int]@);
        assert(views.skip(i as int).skip(1) =~= views.skip(i + 1));
        assert(rejections@.skip(i as int)[0] == rejections@[i as int]);
        assert(rejections@.skip(i as int).skip(1) =~= rejections@.skip(i + 1));
        let record = &records[i];
        match validate_canonical_request_id(record.request_id.as_str()) {
            Ok(()) => {},
            Err(error) => return Err(error),
        }
        match &record.result {
            None => {},
            Some(result) => {
                match &rejections[i] {
                    Some(text) => return Err(
                        SessionError { kind: ErrorKind::InvalidData, message: text.clone() },
                    ),
                    None => {},
                }
                if !same_text(result.request_id.as_str(), record.request_id.as_str()) {
                    return Err(
                        SessionError::new(
                            ErrorKind::InvalidData,
                            "desktop dedupe key/result requestId mismatch",
                        ),
                    );
                }
            },
        }
        i = i + 1;
    }
    Ok(())
}

/// Drops the oldest completed records until one more fits.
fn make_room(document: &mut DedupeDocument, maximum_records: usize) -> (done: Result<
    (),
    SessionError,
>)
    ensures
        match with_room(old(document)@.records, maximum_records as nat) {
            Some(kept) => {
                &&& done is Ok
                &&& final(document)@ == (DedupeDocumentView {
                    schema_version: old(document).schema_version,
                    records: kept,
                })
            },
            None => fails_with(
                done,
                ErrorKind::WouldBlock,
                "desktop dedupe capacity is occupied by pending requests"@,
            ),
        },
{
    let ghost first = document@;
    while document.records.len() >= maximum_records
        invariant
            first == old(document)@,
            document.schema_version == first.schema_version,
            with_room(document@.records, maximum_records as nat) == with_room(
                first.records,
                maximum_records as nat,
            ),
        decreases document.records.len(),
    {
        let ghost views = document@.records;
        assert(views.len() == document.records@.len());
        let mut i: usize = 0;
        while i < document.records.len() && document.records[i].result.is_none()
            invariant
                i <= document.records.len(),
                views == document@.records,
                forall|j: int| 0 <= j < i ==> (#[trigger] views[j]).result is None,
            decreases document.records.len() - i,
        {
            assert(views[i as int] == document.records@[i as int]@);
            i = i + 1;
        }
        if i < document.records.len() {
            assert(views[i as int] == document.records@[i as int]@);
        }
        proof {
            completed_is(views, i as int);
        }
        if i == document.records.len() {
            return Err(
                SessionError::new(
                    ErrorKind::WouldBlock,
                    "desktop dedupe capacity is occupied by pending requests",
                ),
            );
        }
        document.records.remove(i);
        assert(document@.records =~= views.remove(i as int));
    }
    assert(document@.records.len() == document.records@.len());
    Ok(())
}

} // verus!

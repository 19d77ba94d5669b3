//! The log behind the notification store: its records, its segments and when it
//! is folded into a checkpoint.

use vstd::prelude::*;
use vstd::slice::slice_subrange;
use vstd::utf8::encode_utf8;

use crate::error::{ErrorKind, SessionError};
use crate::notifications::document::{
    document_json, document_text, documents_json, documents_text, json_bool, json_items,
};
use crate::notifications::model::{OperationView, Refusal};
use crate::notifications::store::{refused, StoreOperation};
use crate::text::{
    decimal, decimal_is_one_line, decimal_spells_the_number, decimal_text,
    encoding_of_concatenation, one_line, one_line_in_bytes, one_line_of_two,
};

verus! {

/// No segment of the log is larger than this.
pub const SEGMENT_LIMIT_BYTES: usize = 4194304;

/// The whole log is folded into a checkpoint before it grows beyond this.
pub const CHECKPOINT_LOG_BYTES: usize = 16777216;

/// The log is folded into a checkpoint after this many operations.
pub const CHECKPOINT_OPERATION_INTERVAL: u64 = 1000;

/// Where the log stands.
#[derive(Debug, Clone, Copy, PartialEq, Eq)]
pub struct LogState {
    /// Whether the log has a first checkpoint.
    pub initialized: bool,
    /// The sequence number of the next record.
    pub next_sequence: u64,
    pub operations_since_checkpoint: u64,
    pub segment_bytes: usize,
    pub log_bytes_since_checkpoint: usize,
    pub segment_index: usize,
    /// A segment with an unfinished record at its end, and its length without it.
    pub tail_repair: Option<(usize, usize)>,
    /// Whether a write was begun whose outcome is not known.
    pub poisoned: bool,
}

/// The record of an append that is durable. Only such an append can be finished.
#[derive(Debug)]
pub struct DurableAppend {
    sequence: u64,
}

impl DurableAppend {
    /// The sequence number of the record that was appended.
    pub closed spec fn number(&self) -> u64 {
        self.sequence
    }

    pub fn sequence(&self) -> (sequence: u64)
        ensures
            sequence == self.number(),
    {
        self.sequence
    }
}

/// What has to be written, in this order, to make one record durable.
#[derive(Debug, Clone, Copy, PartialEq, Eq)]
pub struct LogPlan {
    /// Back up the older files and publish a first checkpoint.
    pub import_legacy: bool,
    /// Cut this segment to this length.
    pub truncate: Option<(usize, usize)>,
    /// Publish a checkpoint of the present state with this sequence number, empty
    /// the first segment and remove the others.
    pub checkpoint: Option<u64>,
    /// The last segment that a checkpoint removes.
    pub discarded_through: usize,
    /// Whether the record opens a new segment.
    pub rotated: bool,
    /// The segment to append to.
    pub segment: usize,
}

/// The name of a segment file.
pub open spec fn segment_file(index: nat) -> Seq<char> {
    if index == 0 {
        "segment-v2.ndjson"@
    } else {
        "segment-v2-"@ + decimal(index) + ".ndjson"@
    }
}

pub fn segment_name(index: usize) -> (name: String)
    ensures
        name@ == segment_file(index as nat),
{
    if index == 0 {
        "segment-v2.ndjson".to_owned()
    } else {
        let mut name = "segment-v2-".to_owned();
        name.append(decimal_text(index as u64).as_str());
        name.append(".ndjson");
        name
    }
}

/// Different segments have different file names.
pub proof fn segment_names_differ(a: nat, b: nat)
    requires
        a != b,
    ensures
        segment_file(a) != segment_file(b),
{
    reveal_strlit("segment-v2.ndjson");
    reveal_strlit("segment-v2-");
    reveal_strlit(".ndjson");
    decimal_spells_the_number(a);
    decimal_spells_the_number(b);
    let head = "segment-v2-"@;
    let tail = ".ndjson"@;
    if segment_file(a) == segment_file(b) {
        if a == 0 {
            assert(segment_file(b)[10] == '-');
            assert(segment_file(a)[10] == '.');
        } else if b == 0 {
            assert(segment_file(a)[10] == '-');
            assert(segment_file(b)[10] == '.');
        } else {
            let na = segment_file(a);
            let nb = segment_file(b);
            assert(na.subrange(11, na.len() - 7) =~= decimal(a));
            assert(nb.subrange(11, nb.len() - 7) =~= decimal(b));
        }
    }
}

// ---------------------------------------------------------------------------
// Records
// ---------------------------------------------------------------------------

pub open spec fn ids_json(ids: Seq<u64>) -> Seq<char> {
    json_items(ids.map_values(|id: u64| decimal(id as nat)))
}

#[verifier::opaque]
pub open spec fn operation_json(operation: OperationView) -> Seq<char> {
    match operation {
        OperationView::SetDnd { enabled } => "{\"type\":\"setDnd\",\"data\":{\"enabled\":"@
            + json_bool(enabled) + "}}"@,
        OperationView::Push { notification, archived } =>
        "{\"type\":\"push\",\"data\":{\"notification\":"@ + document_json(notification)
            + ",\"archived\":["@ + documents_json(archived) + "]}}"@,
        OperationView::Dismiss { notification } =>
        "{\"type\":\"dismiss\",\"data\":{\"notification\":"@ + document_json(notification) + "}}"@,
        OperationView::MarkRead { id } => "{\"type\":\"markRead\",\"data\":{\"id\":"@ + decimal(
            id as nat,
        ) + "}}"@,
        OperationView::ExpireActions { ids } =>
        "{\"type\":\"expireActions\",\"data\":{\"ids\":["@ + ids_json(ids) + "]}}"@,
        OperationView::PurgeArchive => "{\"type\":\"purgeArchive\"}"@,
    }
}

/// One line of the log, with the line feed that ends it.
#[verifier::opaque]
pub open spec fn record_line(sequence: u64, operation: OperationView) -> Seq<char> {
    "{\"schemaVersion\":1,\"sequence\":"@ + decimal(sequence as nat) + ",\"operation\":"@
        + operation_json(operation) + "}\n"@
}

/// The fixed parts of a record hold no line feed.
proof fn operation_pieces_are_one_line()
    ensures
        one_line(Seq::<char>::empty()),
        one_line("{\"type\":\"setDnd\",\"data\":{\"enabled\":"@),
        one_line("}}"@),
        one_line("{\"type\":\"push\",\"data\":{\"notification\":"@),
        one_line(",\"archived\":["@),
        one_line("]}}"@),
        one_line("{\"type\":\"dismiss\",\"data\":{\"notification\":"@),
        one_line("{\"type\":\"markRead\",\"data\":{\"id\":"@),
        one_line("{\"type\":\"expireActions\",\"data\":{\"ids\":["@),
        one_line("{\"type\":\"purgeArchive\"}"@),
        one_line("true"@),
        one_line("false"@),
        one_line(","@),
        one_line("}"@),
        one_line("{\"schemaVersion\":1,\"sequence\":"@),
        one_line(",\"operation\":"@),
{
    reveal(one_line);
    reveal_strlit("{\"type\":\"setDnd\",\"data\":{\"enabled\":");
    reveal_strlit("}}");
    reveal_strlit("{\"type\":\"push\",\"data\":{\"notification\":");
    reveal_strlit(",\"archived\":[");
    reveal_strlit("]}}");
    reveal_strlit("{\"type\":\"dismiss\",\"data\":{\"notification\":");
    reveal_strlit("{\"type\":\"markRead\",\"data\":{\"id\":");
    reveal_strlit("{\"type\":\"expireActions\",\"data\":{\"ids\":[");
    reveal_strlit("{\"type\":\"purgeArchive\"}");
    reveal_strlit("true");
    reveal_strlit("false");
    reveal_strlit(",");
    reveal_strlit("}");
    reveal_strlit("{\"schemaVersion\":1,\"sequence\":");
    reveal_strlit(",\"operation\":");
}

fn ids_text(ids: &[u64]) -> (text: String)
    ensures
        text@ == ids_json(ids@),
        one_line(text@),
{
    proof {
        operation_pieces_are_one_line();
    }
    let mut text = String::new();
    let ghost items = ids@.map_values(|id: u64| decimal(id as nat));
    for i in 0..ids.len()
        invariant
            items == ids@.map_values(|id: u64| decimal(id as nat)),
            text@ == json_items(items.take(i as int)),
            one_line(text@),
    {
        broadcast use {one_line_of_two, decimal_is_one_line};

        proof {
            operation_pieces_are_one_line();
        }
        if i > 0 {
            text.append(",");
        }
        text.append(decimal_text(ids[i]).as_str());
        proof {
            let longer = items.take(i + 1);
            assert(longer.drop_last() =~= items.take(i as int));
            assert(longer.last() == decimal(ids@[i as int] as nat));
            if i == 0 {
                assert(text@ =~= longer[0]);
            }
        }
    }
    assert(items.take(ids@.len() as int) =~= items);
    text
}

fn operation_text(operation: &StoreOperation) -> (text: String)
    ensures
        text@ == operation_json(operation@),
        one_line(text@),
{
    broadcast use {one_line_of_two, decimal_is_one_line};

    proof {
        reveal(operation_json);
        operation_pieces_are_one_line();
    }
    match operation {
        StoreOperation::SetDnd { enabled } => {
            let mut text = "{\"type\":\"setDnd\",\"data\":{\"enabled\":".to_owned();
            if *enabled {
                text.append("true");
            } else {
                text.append("false");
            }
            text.append("}}");
            text
        },
        StoreOperation::Push { notification, archived } => {
            let mut text = "{\"type\":\"push\",\"data\":{\"notification\":".to_owned();
            text.append(document_text(notification).as_str());
            text.append(",\"archived\":[");
            text.append(documents_text(archived.as_slice()).as_str());
            text.append("]}}");
            text
        },
        StoreOperation::Dismiss { notification } => {
            let mut text = "{\"type\":\"dismiss\",\"data\":{\"notification\":".to_owned();
            text.append(document_text(notification).as_str());
            text.append("}}");
            text
        },
        StoreOperation::MarkRead { id } => {
            let mut text = "{\"type\":\"markRead\",\"data\":{\"id\":".to_owned();
            text.append(decimal_text(*id).as_str());
            text.append("}}");
            text
        },
        StoreOperation::ExpireActions { ids } => {
            let mut text = "{\"type\":\"expireActions\",\"data\":{\"ids\":[".to_owned();
            text.append(ids_text(ids.as_slice()).as_str());
            text.append("]}}");
            text
        },
        StoreOperation::PurgeArchive => "{\"type\":\"purgeArchive\"}".to_owned(),
    }
}

/// Whether a text is one line with the line feed that ends it.
pub open spec fn is_line(text: Seq<char>) -> bool {
    text.len() > 1 && text.last() == '\n' && one_line(text.drop_last())
}

/// Writes one line of the log. Whatever the operation holds, it is one line.
pub fn record_text(sequence: u64, operation: &StoreOperation) -> (text: String)
    ensures
        text@ == record_line(sequence, operation@),
        is_line(text@),
{
    broadcast use {one_line_of_two, decimal_is_one_line};

    proof {
        reveal(record_line);
        operation_pieces_are_one_line();
    }
    let mut text = "{\"schemaVersion\":1,\"sequence\":".to_owned();
    text.append(decimal_text(sequence).as_str());
    text.append(",\"operation\":");
    text.append(operation_text(operation).as_str());
    let ghost body = text@;
    text.append("}\n");
    proof {
        reveal_strlit("}\n");
        reveal_strlit("}");
        assert(text@.drop_last() =~= body + "}"@);
    }
    text
}

// ---------------------------------------------------------------------------
// Appending
// ---------------------------------------------------------------------------

pub open spec fn saturating_sum(a: int, b: int) -> int {
    if a + b > usize::MAX {
        usize::MAX as int
    } else {
        a + b
    }
}

impl LogState {
    /// The sizes stay within what recovery accepts.
    pub open spec fn within_limits(self) -> bool {
        &&& self.segment_bytes <= SEGMENT_LIMIT_BYTES
        &&& self.log_bytes_since_checkpoint <= CHECKPOINT_LOG_BYTES
        &&& self.next_sequence >= 1
        &&& self.tail_repair is Some ==> {
            &&& self.tail_repair->Some_0.0 == self.segment_index
            &&& self.tail_repair->Some_0.1 <= self.segment_bytes
        }
    }

    /// The log once an unfinished record was cut off.
    pub open spec fn repaired(self) -> LogState {
        match self.tail_repair {
            Some((segment, length)) => {
                let cut = if segment == self.segment_index && self.segment_bytes > length {
                    self.segment_bytes - length
                } else {
                    0
                };
                LogState {
                    segment_bytes: if segment == self.segment_index {
                        length
                    } else {
                        self.segment_bytes
                    },
                    log_bytes_since_checkpoint: if self.log_bytes_since_checkpoint > cut {
                        (self.log_bytes_since_checkpoint - cut) as usize
                    } else {
                        0
                    },
                    tail_repair: None,
                    ..self
                }
            },
            None => self,
        }
    }

    /// The log right after a checkpoint.
    pub open spec fn folded(self) -> LogState {
        LogState {
            operations_since_checkpoint: 0,
            segment_bytes: 0,
            log_bytes_since_checkpoint: 0,
            segment_index: 0,
            ..self
        }
    }

    /// Whether a record of this length would make the log too long.
    pub open spec fn folds_for(self, length: int) -> bool {
        saturating_sum(self.log_bytes_since_checkpoint as int, length) > CHECKPOINT_LOG_BYTES
    }

    /// Whether a record of this length needs a new segment.
    pub open spec fn rotates_for(self, length: int) -> bool {
        !self.folds_for(length) && saturating_sum(self.segment_bytes as int, length)
            > SEGMENT_LIMIT_BYTES
    }

    /// The log when everything before the record is written.
    pub open spec fn ready_for(self, length: int) -> LogState {
        let ready = LogState { poisoned: true, initialized: true, ..self.repaired() };
        if ready.folds_for(length) {
            ready.folded()
        } else if ready.rotates_for(length) {
            LogState {
                segment_index: (ready.segment_index + 1) as usize,
                segment_bytes: 0,
                ..ready
            }
        } else {
            ready
        }
    }

    /// What has to be written for a record of this length.
    pub open spec fn plan_for(self, length: int) -> LogPlan {
        let repaired = self.repaired();
        LogPlan {
            import_legacy: !self.initialized,
            truncate: self.tail_repair,
            checkpoint: if repaired.folds_for(length) {
                Some(
                    if self.next_sequence == 0 {
                        0
                    } else {
                        (self.next_sequence - 1) as u64
                    },
                )
            } else {
                None
            },
            discarded_through: self.segment_index,
            rotated: repaired.rotates_for(length),
            segment: self.ready_for(length).segment_index,
        }
    }

    /// Why a record of this length cannot be appended, if it cannot.
    pub open spec fn append_refusal(self, length: int) -> Option<Refusal> {
        if self.poisoned {
            Some(
                (
                    ErrorKind::Other,
                    "notification store requires restart after an ambiguous durable write"@,
                ),
            )
        } else if length > SEGMENT_LIMIT_BYTES {
            Some((ErrorKind::InvalidInput, "notification operation exceeds the segment limit"@))
        } else if self.repaired().rotates_for(length) && self.repaired().segment_index
            == usize::MAX {
            Some((ErrorKind::OutOfMemory, "notification segment index exhausted"@))
        } else {
            None
        }
    }

    /// Plans the write of a record and marks the log as having a write under way.
    pub fn plan_append(&mut self, length: usize) -> (plan: Result<LogPlan, SessionError>)
        ensures
            final(self).next_sequence == old(self).next_sequence,
            match old(self).append_refusal(length as int) {
                Some(refusal) => {
                    &&& refused(plan, refusal)
                    &&& old(self).poisoned || length > SEGMENT_LIMIT_BYTES ==> *final(self)
                        == *old(self)
                    &&& old(self).poisoned || length <= SEGMENT_LIMIT_BYTES
                        ==> final(self).poisoned
                },
                None => {
                    &&& plan is Ok
                    &&& plan->Ok_0 == old(self).plan_for(length as int)
                    &&& *final(self) == old(self).ready_for(length as int)
                },
            },
    {
        if self.poisoned {
            return Err(
                SessionError::new(
                    ErrorKind::Other,
                    "notification store requires restart after an ambiguous durable write",
                ),
            );
        }
        if length > SEGMENT_LIMIT_BYTES {
            return Err(
                SessionError::new(
                    ErrorKind::InvalidInput,
                    "notification operation exceeds the segment limit",
                ),
            );
        }
        let import_legacy = !self.initialized;
        let truncate = self.tail_repair;
        let discarded_through: usize = self.segment_index;
        self.poisoned = true;
        self.initialized = true;
        if let Some((segment, valid)) = self.tail_repair {
            let old_length: usize = if segment == self.segment_index {
                self.segment_bytes
            } else {
                0
            };
            if segment == self.segment_index {
                self.segment_bytes = valid;
            }
            self.log_bytes_since_checkpoint = self.log_bytes_since_checkpoint.saturating_sub(
                old_length.saturating_sub(valid),
            );
            self.tail_repair = None;
        }
        let mut checkpoint: Option<u64> = None;
        let mut rotated = false;
        if self.log_bytes_since_checkpoint.saturating_add(length) > CHECKPOINT_LOG_BYTES {
            checkpoint = Some(self.next_sequence.saturating_sub(1));
            self.operations_since_checkpoint = 0;
            self.segment_bytes = 0;
            self.log_bytes_since_checkpoint = 0;
            self.segment_index = 0;
        } else if self.segment_bytes.saturating_add(length) > SEGMENT_LIMIT_BYTES {
            match self.segment_index.checked_add(1) {
                Some(next) => {
                    self.segment_index = next;
                },
                None => {
                    return Err(
                        SessionError::new(
                            ErrorKind::OutOfMemory,
                            "notification segment index exhausted",
                        ),
                    );
                },
            }
            self.segment_bytes = 0;
            rotated = true;
        }
        Ok(
            LogPlan {
                import_legacy,
                truncate,
                checkpoint,
                discarded_through,
                rotated,
                segment: self.segment_index,
            },
        )
    }

    /// The log once a record of this length is durable.
    pub open spec fn after_append(self, length: int) -> LogState {
        LogState {
            segment_bytes: saturating_sum(self.segment_bytes as int, length) as usize,
            log_bytes_since_checkpoint: saturating_sum(
                self.log_bytes_since_checkpoint as int,
                length,
            ) as usize,
            operations_since_checkpoint: if self.operations_since_checkpoint == u64::MAX {
                u64::MAX
            } else {
                (self.operations_since_checkpoint + 1) as u64
            },
            next_sequence: (self.next_sequence + 1) as u64,
            ..self
        }
    }

    /// Takes note of what came of writing a record of this length. A log whose write
    /// failed stays as it is: nothing more can be appended to it.
    pub fn appended(&mut self, length: usize, written: Result<(), SessionError>) -> (result: Result<
        DurableAppend,
        SessionError,
    >)
        requires
            old(self).poisoned,
        ensures
            match written {
                Err(error) => {
                    &&& result == Err::<DurableAppend, SessionError>(error)
                    &&& *final(self) == *old(self)
                },
                Ok(()) => if old(self).next_sequence < u64::MAX {
                    &&& result is Ok
                    &&& result->Ok_0.number() == old(self).next_sequence
                    &&& *final(self) == old(self).after_append(length as int)
                } else {
                    &&& refused(
                        result,
                        (ErrorKind::OutOfMemory, "notification sequence exhausted"@),
                    )
                    &&& final(self).poisoned
                    &&& final(self).next_sequence == old(self).next_sequence
                },
            },
    {
        if let Err(error) = written {
            return Err(error);
        }
        let sequence: u64 = self.next_sequence;
        self.segment_bytes = self.segment_bytes.saturating_add(length);
        self.log_bytes_since_checkpoint = self.log_bytes_since_checkpoint.saturating_add(length);
        self.operations_since_checkpoint = self.operations_since_checkpoint.saturating_add(1);
        match sequence.checked_add(1) {
            Some(next) => {
                self.next_sequence = next;
                Ok(DurableAppend { sequence })
            },
            None => Err(
                SessionError::new(ErrorKind::OutOfMemory, "notification sequence exhausted"),
            ),
        }
    }

    /// The sequence number of the checkpoint that is due, if one is.
    pub open spec fn due(self) -> Option<u64> {
        if self.operations_since_checkpoint >= CHECKPOINT_OPERATION_INTERVAL {
            Some((self.next_sequence - 1) as u64)
        } else {
            None
        }
    }

    pub fn checkpoint_due(&self) -> (sequence: Option<u64>)
        requires
            self.next_sequence >= 1,
        ensures
            sequence == self.due(),
    {
        if self.operations_since_checkpoint >= CHECKPOINT_OPERATION_INTERVAL {
            Some(self.next_sequence - 1)
        } else {
            None
        }
    }

    /// The log once an append was finished.
    pub open spec fn after_finish(self) -> LogState {
        LogState {
            poisoned: false,
            ..if self.due() is Some {
                self.folded()
            } else {
                self
            }
        }
    }

    /// Ends the write of a record that is durable, given what came of publishing the
    /// checkpoint that was due, if one was. A log whose checkpoint failed stays as it
    /// is: nothing more can be appended to it.
    pub fn finish(&mut self, append: DurableAppend, published: Result<(), SessionError>) -> (result:
        Result<(), SessionError>)
        requires
            append.number() + 1 == old(self).next_sequence,
        ensures
            if old(self).due() is Some && published is Err {
                &&& result is Err && result->Err_0 == published->Err_0
                &&& *final(self) == *old(self)
            } else {
                &&& result is Ok
                &&& *final(self) == old(self).after_finish()
            },
    {
        if self.operations_since_checkpoint >= CHECKPOINT_OPERATION_INTERVAL {
            if let Err(error) = published {
                return Err(error);
            }
            self.operations_since_checkpoint = 0;
            self.segment_bytes = 0;
            self.log_bytes_since_checkpoint = 0;
            self.segment_index = 0;
        }
        self.poisoned = false;
        Ok(())
    }
}

/// Once a write was begun nothing is appended until it was finished, and that takes
/// a record that is durable: while a write failed, or is under way, or its record is
/// durable but its checkpoint is not, every other is refused.
pub proof fn a_begun_write_blocks_every_other(log: LogState, length: int, next: int)
    ensures
        log.ready_for(length).append_refusal(next) == Some(
            (
                ErrorKind::Other,
                "notification store requires restart after an ambiguous durable write"@,
            ),
        ),
        log.ready_for(length).after_append(length).append_refusal(next)
            == log.ready_for(length).append_refusal(next),
        !log.ready_for(length).after_append(length).after_finish().poisoned,
{
}

/// One append keeps every segment and the whole log within the sizes that
/// recovery accepts, and moves the sequence on by one.
pub proof fn appending_keeps_limits(log: LogState, length: int)
    requires
        log.within_limits(),
        0 <= length <= SEGMENT_LIMIT_BYTES,
        log.next_sequence < u64::MAX,
        log.repaired().segment_index < usize::MAX,
    ensures
        log.ready_for(length).after_append(length).within_limits(),
        log.ready_for(length).after_append(length).next_sequence == log.next_sequence + 1,
        log.ready_for(length).poisoned,
{
}

// ---------------------------------------------------------------------------
// Scanning a segment
// ---------------------------------------------------------------------------

/// The length of a segment up to its last line feed.
pub open spec fn complete_length(bytes: Seq<u8>) -> int
    decreases bytes.len(),
{
    if bytes.len() == 0 {
        0
    } else if bytes.last() == 10 {
        bytes.len() as int
    } else {
        complete_length(bytes.drop_last())
    }
}

/// The non-empty lines of a text that ends with a line feed or is empty.
pub open spec fn byte_lines(bytes: Seq<u8>) -> Seq<Seq<u8>>
    decreases bytes.len(),
{
    let end = first_feed(bytes);
    if bytes.len() == 0 {
        Seq::empty()
    } else if end >= bytes.len() {
        seq![bytes]
    } else if end <= 0 {
        byte_lines(bytes.skip(1))
    } else {
        seq![bytes.take(end)] + byte_lines(bytes.skip(end + 1))
    }
}

/// The place of the first line feed, the length if there is none.
pub open spec fn first_feed(bytes: Seq<u8>) -> int
    decreases bytes.len(),
{
    if bytes.len() == 0 || bytes.first() == 10 {
        0
    } else {
        1 + first_feed(bytes.skip(1))
    }
}

proof fn first_feed_is(bytes: Seq<u8>, at: int)
    requires
        0 <= at <= bytes.len(),
        forall|i: int| 0 <= i < at ==> bytes[i] != 10,
        at < bytes.len() ==> bytes[at] == 10,
    ensures
        first_feed(bytes) == at,
    decreases bytes.len(),
{
    if bytes.len() > 0 && bytes.first() != 10 {
        let rest = bytes.skip(1);
        assert forall|i: int| 0 <= i < at - 1 implies rest[i] != 10 by {
            assert(rest[i] == bytes[i + 1]);
        }
        assert(at >= 1);
        first_feed_is(rest, at - 1);
    }
}

/// The lines of a segment and how much of it is complete.
pub struct SegmentScan {
    pub valid_length: usize,
    pub lines: Vec<Vec<u8>>,
}

pub open spec fn byte_pieces(list: Seq<Vec<u8>>) -> Seq<Seq<u8>> {
    list.map_values(|piece: Vec<u8>| piece@)
}

fn copy_bytes(bytes: &[u8]) -> (copy: Vec<u8>)
    ensures
        copy@ == bytes@,
{
    let mut copy: Vec<u8> = Vec::new();
    for i in 0..bytes.len()
        invariant
            copy@ == bytes@.take(i as int),
    {
        copy.push(bytes[i]);
        assert(bytes@.take(i as int).push(bytes@[i as int]) =~= bytes@.take(i + 1));
    }
    assert(bytes@.take(bytes@.len() as int) =~= bytes@);
    copy
}

/// Splits a segment into its complete records. A record without a line feed at
/// its end was not finished and is left out.
pub fn scan_segment(bytes: &[u8]) -> (scan: SegmentScan)
    ensures
        scan.valid_length == complete_length(bytes@),
        scan.valid_length <= bytes@.len(),
        byte_pieces(scan.lines@) == byte_lines(bytes@.take(complete_length(bytes@))),
{
    let mut valid_length: usize = bytes.len();
    assert(bytes@.take(bytes@.len() as int) =~= bytes@);
    while valid_length > 0 && bytes[valid_length - 1] != 10
        invariant
            valid_length <= bytes@.len(),
            complete_length(bytes@.take(valid_length as int)) == complete_length(bytes@),
        decreases valid_length,
    {
        assert(bytes@.take(valid_length as int).drop_last() =~= bytes@.take(valid_length - 1));
        valid_length = valid_length - 1;
    }
    let whole = slice_subrange(bytes, 0, valid_length);
    assert(whole@ =~= bytes@.take(valid_length as int));
    let mut lines: Vec<Vec<u8>> = Vec::new();
    let mut from: usize = 0;
    assert(whole@.skip(0) =~= whole@);
    assert(byte_pieces(lines@) + byte_lines(whole@) =~= byte_lines(whole@));
    while from < whole.len()
        invariant
            from <= whole@.len(),
            byte_pieces(lines@) + byte_lines(whole@.skip(from as int)) == byte_lines(whole@),
        decreases whole@.len() - from,
    {
        let rest = slice_subrange(whole, from, whole.len());
        assert(rest@ =~= whole@.skip(from as int));
        let mut end: usize = 0;
        while end < rest.len() && rest[end] != 10
            invariant
                end <= rest@.len(),
                forall|i: int| 0 <= i < end ==> rest@[i] != 10,
            decreases rest@.len() - end,
        {
            end = end + 1;
        }
        proof {
            first_feed_is(rest@, end as int);
        }
        let ghost before = lines@;
        if end >= rest.len() {
            lines.push(copy_bytes(rest));
            from = whole.len();
            proof {
                assert(byte_pieces(lines@) =~= byte_pieces(before) + seq![rest@]);
                assert(byte_lines(whole@.skip(from as int)) =~= Seq::<Seq<u8>>::empty());
                assert(byte_pieces(lines@) + byte_lines(whole@.skip(from as int))
                    =~= byte_pieces(before) + byte_lines(rest@));
            }
        } else if end == 0 {
            assert(rest@.skip(1) =~= whole@.skip(from + 1));
            from = from + 1;
        } else {
            lines.push(copy_bytes(slice_subrange(rest, 0, end)));
            proof {
                assert(rest@.subrange(0, end as int) =~= rest@.take(end as int));
                assert(byte_pieces(lines@) =~= byte_pieces(before) + seq![rest@.take(end as int)]);
                assert(rest@.skip(end + 1) =~= whole@.skip(from + end + 1));
                assert(byte_pieces(lines@) + byte_lines(whole@.skip(from + end + 1))
                    =~= byte_pieces(before) + (seq![rest@.take(end as int)] + byte_lines(
                    rest@.skip(end + 1),
                )));
            }
            from = from + end + 1;
        }
    }
    assert(byte_lines(whole@.skip(from as int)) =~= Seq::<Seq<u8>>::empty());
    assert(byte_pieces(lines@) + Seq::<Seq<u8>>::empty() =~= byte_pieces(lines@));
    SegmentScan { valid_length, lines }
}

/// A log of lines, each with the line feed that ends it.
pub open spec fn log_of(lines: Seq<Seq<u8>>) -> Seq<u8>
    decreases lines.len(),
{
    if lines.len() == 0 {
        Seq::empty()
    } else {
        lines.first().push(10u8) + log_of(lines.skip(1))
    }
}

/// Whether bytes can be a line: something, without a line feed.
pub open spec fn can_be_line(line: Seq<u8>) -> bool {
    line.len() > 0 && !line.contains(10u8)
}

proof fn tail_is_incomplete(log: Seq<u8>, tail: Seq<u8>)
    requires
        !tail.contains(10u8),
        log.len() == 0 || log.last() == 10u8,
    ensures
        complete_length(log + tail) == log.len(),
    decreases tail.len(),
{
    let whole = log + tail;
    if tail.len() == 0 {
        assert(whole =~= log);
    } else {
        assert(tail.contains(tail.last()));
        assert(whole.last() == tail.last());
        let rest = tail.drop_last();
        assert forall|i: int| 0 <= i < rest.len() implies rest[i] != 10u8 by {
            assert(tail.contains(tail[i]));
        }
        tail_is_incomplete(log, rest);
        assert(whole.drop_last() =~= log + rest);
    }
}

proof fn a_log_ends_with_a_feed(lines: Seq<Seq<u8>>)
    ensures
        log_of(lines).len() == 0 || log_of(lines).last() == 10u8,
    decreases lines.len(),
{
    if lines.len() > 0 {
        a_log_ends_with_a_feed(lines.skip(1));
        let rest = log_of(lines.skip(1));
        let head = lines.first().push(10u8);
        if rest.len() > 0 {
            assert((head + rest).last() == rest.last());
        } else {
            assert((head + rest) =~= head);
        }
    }
}

proof fn lines_of_a_log(lines: Seq<Seq<u8>>)
    requires
        forall|i: int| 0 <= i < lines.len() ==> can_be_line(#[trigger] lines[i]),
    ensures
        byte_lines(log_of(lines)) == lines,
    decreases lines.len(),
{
    if lines.len() > 0 {
        let line = lines.first();
        let rest = lines.skip(1);
        let log = log_of(lines);
        assert forall|i: int| 0 <= i < rest.len() implies can_be_line(#[trigger] rest[i]) by {
            assert(rest[i] == lines[i + 1]);
        }
        lines_of_a_log(rest);
        assert(can_be_line(lines[0]));
        assert forall|i: int| 0 <= i < line.len() implies log[i] != 10 by {
            assert(line.contains(line[i]));
            assert(log[i] == line[i]);
        }
        assert(log[line.len() as int] == 10);
        first_feed_is(log, line.len() as int);
        assert(log.take(line.len() as int) =~= line);
        assert(log.skip(line.len() as int + 1) =~= log_of(rest));
        assert(seq![line] + rest =~= lines);
    } else {
        assert(byte_lines(log_of(lines)) =~= lines);
    }
}

/// What was written to a segment is read back, and what an interrupted write
/// left behind it is not: a segment of complete lines with the beginning of
/// another is scanned as those lines.
pub proof fn written_lines_are_read_back(lines: Seq<Seq<u8>>, tail: Seq<u8>)
    requires
        forall|i: int| 0 <= i < lines.len() ==> can_be_line(#[trigger] lines[i]),
        !tail.contains(10u8),
    ensures
        complete_length(log_of(lines) + tail) == log_of(lines).len(),
        byte_lines((log_of(lines) + tail).take(complete_length(log_of(lines) + tail))) == lines,
{
    a_log_ends_with_a_feed(lines);
    tail_is_incomplete(log_of(lines), tail);
    assert((log_of(lines) + tail).take(log_of(lines).len() as int) =~= log_of(lines));
    lines_of_a_log(lines);
}

/// A record that was written as one line is one line of the log.
pub proof fn a_record_is_a_line_of_the_log(text: Seq<char>)
    requires
        is_line(text),
    ensures
        ({
            let line = encode_utf8(text.drop_last());
            &&& can_be_line(line)
            &&& encode_utf8(text) == log_of(seq![line])
        }),
{
    let body = text.drop_last();
    let line = encode_utf8(body);
    one_line_in_bytes(body);
    assert(text =~= body + seq!['\n']);
    encoding_of_concatenation(body, seq!['\n']);
    assert(encode_utf8(seq!['\n']) =~= seq![10u8]) by {
        reveal_with_fuel(encode_utf8, 2);
        assert(10u32 & 0x7f == 10u32) by (bit_vector);
        assert(seq!['\n'].drop_first() =~= Seq::<char>::empty());
    }
    assert(line.len() > 0) by {
        reveal_with_fuel(encode_utf8, 2);
    }
    assert(seq![line].skip(1) =~= Seq::<Seq<u8>>::empty());
    assert(log_of(seq![line].skip(1)) =~= Seq::<u8>::empty());
    assert(log_of(seq![line]) =~= line.push(10u8));
}

} // verus!

//! Limits on what one frame of the desktop protocol may hold.

use vstd::prelude::*;

use crate::error::{fails_with, ErrorKind, SessionError};
use crate::text::{byte_len, text_bytes};

verus! {

pub const MAX_DESKTOP_FRAME_BYTES: usize = 896 * 1024;

pub const MAX_DESKTOP_SERIALIZED_ITEMS: usize = 20_000;

pub const MAX_DESKTOP_STRING_BYTES: usize = 768 * 1024;

/// How deep a value may be nested.
pub const MAX_DESKTOP_DEPTH: usize = 64;

/// A JSON value. What a number is does not matter to the limits.
pub enum Json {
    Null,
    Bool(bool),
    Number,
    Text(String),
    Array(Vec<Json>),
    Object(Vec<(String, Json)>),
}

/// The JSON value of a text, or the parser's words on why it has none.
pub uninterp spec fn json_value(text: Seq<char>) -> Result<Json, Seq<char>>;

/// The value that `serde_json` parses a JSON text into.
#[verifier::external_type_specification]
#[verifier::external_body]
pub struct ExJsonValue(serde_json::Value);

/// Converts a `serde_json::Value` variant by variant; numbers lose their value.
#[verifier::external_body]
fn json_of(value: serde_json::Value) -> (json: Json) {
    match value {
        serde_json::Value::Null => Json::Null,
        serde_json::Value::Bool(value) => Json::Bool(value),
        serde_json::Value::Number(_) => Json::Number,
        serde_json::Value::String(text) => Json::Text(text),
        serde_json::Value::Array(values) => Json::Array(values.into_iter().map(json_of).collect()),
        serde_json::Value::Object(members) => Json::Object(
            members.into_iter().map(|(key, value)| (key, json_of(value))).collect(),
        ),
    }
}

/// Parses a JSON text with `serde_json::from_str`. The value depends on the text
/// alone, and so does the text of the refusal, which is what `to_string` gives of
/// the error.
#[verifier::external_body]
fn parse_json(text: &str) -> (value: Result<Json, String>)
    ensures
        read_view(value) == json_value(text@),
{
    serde_json::from_str(text).map(json_of).map_err(|error| error.to_string())
}

/// What came of parsing a text.
pub open spec fn read_view(parsed: Result<Json, String>) -> Result<Json, Seq<char>> {
    match parsed {
        Ok(value) => Ok(value),
        Err(reason) => Err(reason@),
    }
}

/// What has been counted of a value.
pub struct Counted {
    pub items: int,
    pub string_bytes: int,
}

pub open spec fn with_items(sum: Counted, count: nat) -> Result<Counted, Seq<char>> {
    if sum.items + count > usize::MAX {
        Err("desktop.item-budget-overflow"@)
    } else {
        Ok(Counted { items: sum.items + count, ..sum })
    }
}

pub open spec fn with_text(sum: Counted, text: Seq<char>) -> Result<Counted, Seq<char>> {
    if sum.string_bytes + byte_len(text) > usize::MAX {
        Err("desktop.string-budget-overflow"@)
    } else {
        Ok(Counted { string_bytes: sum.string_bytes + byte_len(text), ..sum })
    }
}

/// The count after a value, or the first fault met on the way.
pub open spec fn counted(value: Json, depth: nat, sum: Counted) -> Result<Counted, Seq<char>>
    decreases value, 0nat,
{
    if depth > MAX_DESKTOP_DEPTH {
        Err("desktop.serialization-depth-exceeded"@)
    } else {
        match value {
            Json::Text(text) => with_text(sum, text@),
            Json::Array(values) => match with_items(sum, values@.len()) {
                Err(fault) => Err(fault),
                Ok(sum) => counted_values(values@, values@.len(), depth + 1, sum),
            },
            Json::Object(members) => match with_items(sum, members@.len()) {
                Err(fault) => Err(fault),
                Ok(sum) => counted_members(members@, members@.len(), depth + 1, sum),
            },
            _ => Ok(sum),
        }
    }
}

/// The count after the first values of a list.
pub open spec fn counted_values(
    values: Seq<Json>,
    count: nat,
    depth: nat,
    sum: Counted,
) -> Result<Counted, Seq<char>>
    decreases values, count,
{
    if count == 0 || count > values.len() {
        Ok(sum)
    } else {
        match counted_values(values, (count - 1) as nat, depth, sum) {
            Err(fault) => Err(fault),
            Ok(sum) => counted(values[count - 1], depth, sum),
        }
    }
}

/// The count after the first members of an object.
pub open spec fn counted_members(
    members: Seq<(String, Json)>,
    count: nat,
    depth: nat,
    sum: Counted,
) -> Result<Counted, Seq<char>>
    decreases members, count,
{
    if count == 0 || count > members.len() {
        Ok(sum)
    } else {
        match counted_members(members, (count - 1) as nat, depth, sum) {
            Err(fault) => Err(fault),
            Ok(sum) => match with_text(sum, members[count - 1].0@) {
                Err(fault) => Err(fault),
                Ok(sum) => counted(members[count - 1].1, depth, sum),
            },
        }
    }
}

/// How many items the arrays and objects of a value hold in all.
pub open spec fn item_total(value: Json) -> int
    decreases value, 0nat,
{
    match value {
        Json::Array(values) => values@.len() + item_total_of_values(values@, values@.len()),
        Json::Object(members) => members@.len() + item_total_of_members(members@, members@.len()),
        _ => 0,
    }
}

pub open spec fn item_total_of_values(values: Seq<Json>, count: nat) -> int
    decreases values, count,
{
    if count == 0 || count > values.len() {
        0
    } else {
        item_total_of_values(values, (count - 1) as nat) + item_total(values[count - 1])
    }
}

pub open spec fn item_total_of_members(members: Seq<(String, Json)>, count: nat) -> int
    decreases members, count,
{
    if count == 0 || count > members.len() {
        0
    } else {
        item_total_of_members(members, (count - 1) as nat) + item_total(members[count - 1].1)
    }
}

/// How many bytes the texts and keys of a value hold in all.
pub open spec fn text_total(value: Json) -> int
    decreases value, 0nat,
{
    match value {
        Json::Text(text) => byte_len(text@) as int,
        Json::Array(values) => text_total_of_values(values@, values@.len()),
        Json::Object(members) => text_total_of_members(members@, members@.len()),
        _ => 0,
    }
}

pub open spec fn text_total_of_values(values: Seq<Json>, count: nat) -> int
    decreases values, count,
{
    if count == 0 || count > values.len() {
        0
    } else {
        text_total_of_values(values, (count - 1) as nat) + text_total(values[count - 1])
    }
}

pub open spec fn text_total_of_members(members: Seq<(String, Json)>, count: nat) -> int
    decreases members, count,
{
    if count == 0 || count > members.len() {
        0
    } else {
        text_total_of_members(members, (count - 1) as nat) + byte_len(members[count - 1].0@)
            + text_total(members[count - 1].1)
    }
}

/// A count without a fault is the number of items and of text bytes.
pub proof fn count_is_the_total(value: Json, depth: nat, sum: Counted)
    requires
        counted(value, depth, sum) is Ok,
    ensures
        counted(value, depth, sum)->Ok_0 == (Counted {
            items: sum.items + item_total(value),
            string_bytes: sum.string_bytes + text_total(value),
        }),
    decreases value, 0nat,
{
    match value {
        Json::Array(values) => {
            let after = with_items(sum, values@.len())->Ok_0;
            count_of_values(values@, values@.len(), depth + 1, after);
        },
        Json::Object(members) => {
            let after = with_items(sum, members@.len())->Ok_0;
            count_of_members(members@, members@.len(), depth + 1, after);
        },
        _ => {},
    }
}

proof fn count_of_values(values: Seq<Json>, count: nat, depth: nat, sum: Counted)
    requires
        count <= values.len(),
        counted_values(values, count, depth, sum) is Ok,
    ensures
        counted_values(values, count, depth, sum)->Ok_0 == (Counted {
            items: sum.items + item_total_of_values(values, count),
            string_bytes: sum.string_bytes + text_total_of_values(values, count),
        }),
    decreases values, count,
{
    if count > 0 {
        let before = (count - 1) as nat;
        count_of_values(values, before, depth, sum);
        count_is_the_total(
            values[count - 1],
            depth,
            counted_values(values, before, depth, sum)->Ok_0,
        );
    }
}

proof fn count_of_members(members: Seq<(String, Json)>, count: nat, depth: nat, sum: Counted)
    requires
        count <= members.len(),
        counted_members(members, count, depth, sum) is Ok,
    ensures
        counted_members(members, count, depth, sum)->Ok_0 == (Counted {
            items: sum.items + item_total_of_members(members, count),
            string_bytes: sum.string_bytes + text_total_of_members(members, count),
        }),
    decreases members, count,
{
    if count > 0 {
        let before = (count - 1) as nat;
        count_of_members(members, before, depth, sum);
        let sum = counted_members(members, before, depth, sum)->Ok_0;
        let sum = with_text(sum, members[count - 1].0@)->Ok_0;
        count_is_the_total(members[count - 1].1, depth, sum);
    }
}

/// A fault in the first values of a list is the fault of the list.
proof fn value_fault_stays(values: Seq<Json>, count: nat, all: nat, depth: nat, sum: Counted)
    requires
        count <= all <= values.len(),
        counted_values(values, count, depth, sum) is Err,
    ensures
        counted_values(values, all, depth, sum) == counted_values(values, count, depth, sum),
    decreases all - count,
{
    if count < all {
        value_fault_stays(values, count, (all - 1) as nat, depth, sum);
    }
}

proof fn member_fault_stays(
    members: Seq<(String, Json)>,
    count: nat,
    all: nat,
    depth: nat,
    sum: Counted,
)
    requires
        count <= all <= members.len(),
        counted_members(members, count, depth, sum) is Err,
    ensures
        counted_members(members, all, depth, sum) == counted_members(members, count, depth, sum),
    decreases all - count,
{
    if count < all {
        member_fault_stays(members, count, (all - 1) as nat, depth, sum);
    }
}

pub open spec fn sum_of(items: usize, string_bytes: usize) -> Counted {
    Counted { items: items as int, string_bytes: string_bytes as int }
}

/// Adds a text to the count.
fn add_text(string_bytes: &mut usize, text: &str) -> (done: Result<(), SessionError>)
    ensures
        if *old(string_bytes) + byte_len(text@) > usize::MAX {
            fails_with(done, ErrorKind::InvalidData, "desktop.string-budget-overflow"@)
        } else {
            done is Ok && *final(string_bytes) == *old(string_bytes) + byte_len(text@)
        },
{
    let count: usize = text_bytes(text);
    match string_bytes.checked_add(count) {
        Some(sum) => {
            *string_bytes = sum;
            Ok(())
        },
        None => Err(SessionError::new(ErrorKind::InvalidData, "desktop.string-budget-overflow")),
    }
}

/// Adds the length of a list to the count.
fn add_items(items: &mut usize, count: usize) -> (done: Result<(), SessionError>)
    ensures
        if *old(items) + count > usize::MAX {
            fails_with(done, ErrorKind::InvalidData, "desktop.item-budget-overflow"@)
        } else {
            done is Ok && *final(items) == *old(items) + count
        },
{
    match items.checked_add(count) {
        Some(sum) => {
            *items = sum;
            Ok(())
        },
        None => Err(SessionError::new(ErrorKind::InvalidData, "desktop.item-budget-overflow")),
    }
}

/// Adds what a value holds to the count.
#[verifier::loop_isolation(false)]
pub fn accumulate_serialized_budget(
    value: &Json,
    depth: usize,
    items: &mut usize,
    string_bytes: &mut usize,
) -> (done: Result<(), SessionError>)
    ensures
        match counted(*value, depth as nat, sum_of(*old(items), *old(string_bytes))) {
            Err(fault) => fails_with(done, ErrorKind::InvalidData, fault),
            Ok(sum) => done is Ok && sum_of(*final(items), *final(string_bytes)) == sum,
        },
    decreases value,
{
    if depth > MAX_DESKTOP_DEPTH {
        return Err(
            SessionError::new(ErrorKind::InvalidData, "desktop.serialization-depth-exceeded"),
        );
    }
    match value {
        Json::Text(text) => {
            match add_text(string_bytes, text.as_str()) {
                Ok(()) => {},
                Err(error) => return Err(error),
            }
        },
        Json::Array(values) => {
            match add_items(items, values.len()) {
                Ok(()) => {},
                Err(error) => return Err(error),
            }
            let ghost start = sum_of(*items, *string_bytes);
            let mut i: usize = 0;
            while i < values.len()
                invariant
                    i <= values.len(),
                    counted_values(values@, i as nat, (depth + 1) as nat, start) == Ok::<
                        Counted,
                        Seq<char>,
                    >(sum_of(*items, *string_bytes)),
                decreases values.len() - i,
            {
                let ghost next = (i + 1) as nat;
                match accumulate_serialized_budget(&values[i], depth + 1, items, string_bytes) {
                    Ok(()) => {},
                    Err(error) => {
                        proof {
                            value_fault_stays(
                                values@,
                                next,
                                values@.len(),
                                (depth + 1) as nat,
                                start,
                            );
                        }
                        return Err(error);
                    },
                }
                i = i + 1;
            }
        },
        Json::Object(members) => {
            match add_items(items, members.len()) {
                Ok(()) => {},
                Err(error) => return Err(error),
            }
            let ghost start = sum_of(*items, *string_bytes);
            let mut i: usize = 0;
            while i < members.len()
                invariant
                    i <= members.len(),
                    counted_members(members@, i as nat, (depth + 1) as nat, start) == Ok::<
                        Counted,
                        Seq<char>,
                    >(sum_of(*items, *string_bytes)),
                decreases members.len() - i,
            {
                let ghost next = (i + 1) as nat;
                match add_text(string_bytes, members[i].0.as_str()) {
                    Ok(()) => {},
                    Err(error) => {
                        proof {
                            member_fault_stays(
                                members@,
                                next,
                                members@.len(),
                                (depth + 1) as nat,
                                start,
                            );
                        }
                        return Err(error);
                    },
                }
                match accumulate_serialized_budget(&members[i].1, depth + 1, items, string_bytes) {
                    Ok(()) => {},
                    Err(error) => {
                        proof {
                            member_fault_stays(
                                members@,
                                next,
                                members@.len(),
                                (depth + 1) as nat,
                                start,
                            );
                        }
                        return Err(error);
                    },
                }
                i = i + 1;
            }
        },
        _ => {},
    }
    Ok(())
}

/// The first limit that a frame and the value in it break, if they break one.
pub open spec fn budget_fault(encoded: Seq<char>, parsed: Result<Json, Seq<char>>) -> Option<
    (ErrorKind, Seq<char>),
> {
    if byte_len(encoded) > MAX_DESKTOP_FRAME_BYTES {
        Some((ErrorKind::InvalidData, "desktop.frame-too-large"@))
    } else {
        match parsed {
            Err(reason) => Some((ErrorKind::Other, reason)),
            Ok(value) => match counted(value, 0, Counted { items: 0, string_bytes: 0 }) {
                Err(fault) => Some((ErrorKind::InvalidData, fault)),
                Ok(sum) => if sum.items > MAX_DESKTOP_SERIALIZED_ITEMS || sum.string_bytes
                    > MAX_DESKTOP_STRING_BYTES {
                    Some((ErrorKind::InvalidData, "desktop.aggregate-budget-exceeded"@))
                } else {
                    None
                },
            },
        }
    }
}

/// Checks a frame against the limits, given the value that was read in it, or why
/// none could be read.
pub fn check_serialized_budget(encoded: &str, parsed: &Result<Json, String>) -> (checked: Result<
    (),
    SessionError,
>)
    ensures
        match budget_fault(encoded@, read_view(*parsed)) {
            Some(fault) => fails_with(checked, fault.0, fault.1),
            None => checked is Ok,
        },
{
    if text_bytes(encoded) > MAX_DESKTOP_FRAME_BYTES {
        return Err(SessionError::new(ErrorKind::InvalidData, "desktop.frame-too-large"));
    }
    let value = match parsed {
        Ok(value) => value,
        Err(reason) => return Err(
            SessionError { kind: ErrorKind::Other, message: reason.clone() },
        ),
    };
    let mut items: usize = 0;
    let mut string_bytes: usize = 0;
    match accumulate_serialized_budget(value, 0, &mut items, &mut string_bytes) {
        Ok(()) => {},
        Err(error) => return Err(error),
    }
    if items > MAX_DESKTOP_SERIALIZED_ITEMS || string_bytes > MAX_DESKTOP_STRING_BYTES {
        return Err(SessionError::new(ErrorKind::InvalidData, "desktop.aggregate-budget-exceeded"));
    }
    Ok(())
}

/// Checks a frame against the limits.
pub fn validate_serialized_budget(encoded: &str) -> (checked: Result<(), SessionError>)
    ensures
        match budget_fault(encoded@, json_value(encoded@)) {
            Some(fault) => fails_with(checked, fault.0, fault.1),
            None => checked is Ok,
        },
{
    if text_bytes(encoded) > MAX_DESKTOP_FRAME_BYTES {
        return Err(SessionError::new(ErrorKind::InvalidData, "desktop.frame-too-large"));
    }
    let parsed = parse_json(encoded);
    check_serialized_budget(encoded, &parsed)
}

/// A frame that is accepted is short enough, and its value holds few enough items
/// and bytes of text.
pub proof fn accepted_frames_are_within_budget(encoded: Seq<char>, value: Json)
    requires
        budget_fault(encoded, Ok(value)) is None,
    ensures
        byte_len(encoded) <= MAX_DESKTOP_FRAME_BYTES,
        item_total(value) <= MAX_DESKTOP_SERIALIZED_ITEMS,
        text_total(value) <= MAX_DESKTOP_STRING_BYTES,
{
    count_is_the_total(value, 0, Counted { items: 0, string_bytes: 0 });
}

} // verus!

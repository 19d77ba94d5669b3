//! The parts of the desktop protocol that the session writes itself.

use vstd::prelude::*;

use crate::error::{fails_with, ErrorKind, SessionError};
use crate::text::same_text;

verus! {

#[derive(Debug, Clone, Copy, PartialEq, Eq, Structural)]
pub enum DesktopResultStatus {
    Succeeded,
    Failed,
}

/// The outcome of a command.
#[derive(Debug, Clone, PartialEq, Eq)]
pub struct DesktopResult {
    pub schema_version: u32,
    pub request_id: String,
    pub generation: u64,
    pub status: DesktopResultStatus,
    pub diagnostic: Option<String>,
}

pub struct ResultView {
    pub schema_version: u32,
    pub request_id: Seq<char>,
    pub generation: u64,
    pub status: DesktopResultStatus,
    pub diagnostic: Option<Seq<char>>,
}

/// The characters of an optional text.
pub open spec fn optional_text(text: Option<String>) -> Option<Seq<char>> {
    match text {
        Some(text) => Some(text@),
        None => None,
    }
}

pub fn copy_optional(text: &Option<String>) -> (copy: Option<String>)
    ensures
        optional_text(copy) == optional_text(*text),
{
    match text {
        Some(text) => Some(text.clone()),
        None => None,
    }
}

pub fn same_optional(left: &Option<String>, right: &Option<String>) -> (same: bool)
    ensures
        same == (optional_text(*left) == optional_text(*right)),
{
    match (left, right) {
        (Some(left), Some(right)) => same_text(left.as_str(), right.as_str()),
        (None, None) => true,
        _ => false,
    }
}

impl View for DesktopResult {
    type V = ResultView;

    open spec fn view(&self) -> ResultView {
        ResultView {
            schema_version: self.schema_version,
            request_id: self.request_id@,
            generation: self.generation,
            status: self.status,
            diagnostic: optional_text(self.diagnostic),
        }
    }
}

impl DesktopResult {
    pub fn copy(&self) -> (copy: DesktopResult)
        ensures
            copy@ == self@,
    {
        DesktopResult {
            schema_version: self.schema_version,
            request_id: self.request_id.clone(),
            generation: self.generation,
            status: self.status,
            diagnostic: copy_optional(&self.diagnostic),
        }
    }

    /// Whether two outcomes say the same.
    pub fn same(&self, other: &DesktopResult) -> (same: bool)
        ensures
            same == (self@ == other@),
    {
        self.schema_version == other.schema_version && same_text(
            self.request_id.as_str(),
            other.request_id.as_str(),
        ) && self.generation == other.generation && self.status == other.status && same_optional(
            &self.diagnostic,
            &other.diagnostic,
        )
    }
}

/// The outcome of a command that failed.
pub open spec fn failure(
    schema_version: u32,
    request_id: Seq<char>,
    generation: u64,
    diagnostic: Seq<char>,
) -> ResultView {
    ResultView {
        schema_version,
        request_id,
        generation,
        status: DesktopResultStatus::Failed,
        diagnostic: Some(diagnostic),
    }
}

pub fn failed_result(
    schema_version: u32,
    request_id: &str,
    generation: u64,
    diagnostic: &str,
) -> (result: DesktopResult)
    ensures
        result@ == failure(schema_version, request_id@, generation, diagnostic@),
{
    DesktopResult {
        schema_version,
        request_id: request_id.to_owned(),
        generation,
        status: DesktopResultStatus::Failed,
        diagnostic: Some(diagnostic.to_owned()),
    }
}

/// Passes on what the validator of the protocol accepted. A rejection carries
/// the text of the validator.
pub fn accept<T>(value: T, rejection: Option<String>) -> (accepted: Result<T, SessionError>)
    ensures
        match rejection {
            Some(text) => fails_with(accepted, ErrorKind::InvalidData, text@),
            None => accepted == Ok::<T, SessionError>(value),
        },
{
    match rejection {
        Some(text) => Err(SessionError { kind: ErrorKind::InvalidData, message: text }),
        None => Ok(value),
    }
}

/// Why an event is sent.
#[derive(Debug, Clone, Copy, PartialEq, Eq, Structural)]
pub enum EventCauseKind {
    External,
    Lifecycle,
    Replay,
    Request,
}

#[derive(Debug, Clone, PartialEq, Eq)]
pub struct EventCause {
    pub kind: EventCauseKind,
    pub request_id: Option<String>,
}

pub struct CauseView {
    pub kind: EventCauseKind,
    pub request_id: Option<Seq<char>>,
}

impl View for EventCause {
    type V = CauseView;

    open spec fn view(&self) -> CauseView {
        CauseView { kind: self.kind, request_id: optional_text(self.request_id) }
    }
}

impl EventCause {
    pub fn copy(&self) -> (copy: EventCause)
        ensures
            copy@ == self@,
    {
        EventCause { kind: self.kind, request_id: copy_optional(&self.request_id) }
    }
}

} // verus!

//! Running the producers: restarts, deadlines and the orderly end.

use vstd::prelude::*;

use crate::error::{error_is, fails_with, ErrorKind, SessionError};
use crate::text::{
    byte_len, chars_of, encoding_of_concatenation, is_blank, string_of, text_bytes,
};

use super::domain::{
    CapabilityAvailability, DesktopDomainId, DesktopDomainState, ProducerError,
};
use super::registry::{failed_as, terminal_state};

verus! {

// ---------------------------------------------------------------------------
// Diagnostics
// ---------------------------------------------------------------------------

/// The most bytes of a diagnostic that are kept.
pub const MAX_DIAGNOSTIC_BYTES: usize = 1024;

/// The longest beginning of a text that has at most so many bytes.
pub open spec fn bounded(text: Seq<char>, limit: nat) -> Seq<char>
    decreases text.len(),
{
    if text.len() == 0 || byte_len(text) <= limit {
        text
    } else {
        bounded(text.drop_last(), limit)
    }
}

/// A bounded text is a beginning of the text within the limit, and every longer
/// beginning is beyond it.
pub proof fn bounded_is_the_longest_beginning(text: Seq<char>, limit: nat)
    ensures
        bounded(text, limit).len() <= text.len(),
        bounded(text, limit) == text.take(bounded(text, limit).len() as int),
        byte_len(bounded(text, limit)) <= limit,
        bounded(text, limit).len() < text.len() ==> byte_len(
            text.take(bounded(text, limit).len() as int + 1),
        ) > limit,
    decreases text.len(),
{
    if text.len() == 0 {
        assert(text =~= Seq::empty());
        assert(vstd::utf8::encode_utf8(text) =~= Seq::<u8>::empty());
        assert(byte_len(text) == 0);
        assert(text.take(0) =~= text);
    } else if byte_len(text) <= limit {
        assert(text.take(text.len() as int) =~= text);
    } else {
        let shorter = text.drop_last();
        bounded_is_the_longest_beginning(shorter, limit);
        let kept = bounded(shorter, limit).len();
        assert(shorter.take(kept as int) =~= text.take(kept as int));
        if kept < shorter.len() {
            assert(shorter.take(kept as int + 1) =~= text.take(kept as int + 1));
        } else {
            assert(text.take(kept as int + 1) =~= text);
        }
    }
}

/// Cuts a diagnostic to its first kibibyte, between characters.
pub fn bounded_diagnostic(message: String) -> (text: String)
    ensures
        text@ == bounded(message@, MAX_DIAGNOSTIC_BYTES as nat),
{
    let total: usize = text_bytes(message.as_str());
    if total <= MAX_DIAGNOSTIC_BYTES {
        return message;
    }
    let mut chars: Vec<char> = chars_of(message.as_str());
    let mut size: usize = total;
    while chars.len() > 0 && size > MAX_DIAGNOSTIC_BYTES
        invariant
            size == byte_len(chars@),
            bounded(chars@, MAX_DIAGNOSTIC_BYTES as nat) == bounded(
                message@,
                MAX_DIAGNOSTIC_BYTES as nat,
            ),
        decreases chars.len(),
    {
        let ghost before = chars@;
        match chars.pop() {
            None => {},
            Some(c) => {
                let mut single: Vec<char> = Vec::new();
                single.push(c);
                let width: usize = text_bytes(string_of(single.as_slice()).as_str());
                proof {
                    assert(single@ =~= seq![c]);
                    assert(before =~= chars@ + seq![c]);
                    encoding_of_concatenation(chars@, seq![c]);
                    assert(before.drop_last() =~= chars@);
                }
                size = size - width;
            },
        }
    }
    string_of(chars.as_slice())
}

// ---------------------------------------------------------------------------
// Restarts
// ---------------------------------------------------------------------------

/// The first pause before a producer is started again, in milliseconds.
pub const FIRST_PAUSE: u64 = 100;

/// The longest pause, in milliseconds.
pub const LONGEST_PAUSE: u64 = 5_000;

/// A producer that ran so long starts over with the first pause.
pub const STEADY_RUN: u64 = 10_000;

/// How a run of a producer ended.
pub enum RunEnd {
    Returned,
    Failed(ProducerError),
    Panicked,
    Aborted,
}

/// What is reported of a run that ended.
pub open spec fn end_reason(end: RunEnd) -> Seq<char> {
    match end {
        RunEnd::Returned => "producer.disconnected"@,
        RunEnd::Failed(error) => bounded(error.message@, MAX_DIAGNOSTIC_BYTES as nat),
        RunEnd::Panicked => "producer.panicked"@,
        RunEnd::Aborted => "producer.worker-failed"@,
    }
}

/// The state of a domain whose producer ended.
pub fn ended_state(domain: DesktopDomainId, end: RunEnd) -> (state: DesktopDomainState)
    requires
        !is_blank(end_reason(end)),
    ensures
        failed_as(state, domain, CapabilityAvailability::Error, end_reason(end)),
{
    let reason = match end {
        RunEnd::Returned => "producer.disconnected".to_owned(),
        RunEnd::Failed(error) => bounded_diagnostic(error.message),
        RunEnd::Panicked => "producer.panicked".to_owned(),
        RunEnd::Aborted => "producer.worker-failed".to_owned(),
    };
    terminal_state(domain, CapabilityAvailability::Error, reason.as_str())
}

/// The fixed reasons are never blank.
pub proof fn fixed_reasons_are_not_blank(end: RunEnd)
    requires
        !(end is Failed),
    ensures
        !is_blank(end_reason(end)),
{
    reveal_strlit("producer.disconnected");
    reveal_strlit("producer.panicked");
    reveal_strlit("producer.worker-failed");
    assert(end_reason(end)[0] == 'p');
}

/// The pauses between the runs of one producer.
pub struct Restarts {
    next_pause: u64,
}

impl Restarts {
    pub closed spec fn next(&self) -> u64 {
        self.next_pause
    }

    pub open spec fn wf(&self) -> bool {
        FIRST_PAUSE <= self.next() <= LONGEST_PAUSE
    }

    pub fn new() -> (restarts: Restarts)
        ensures
            restarts.wf(),
            restarts.next() == FIRST_PAUSE,
    {
        Restarts { next_pause: FIRST_PAUSE }
    }

    /// The pause after a run that took so many milliseconds. It doubles from run
    /// to run, up to the longest, and starts over after a steady run.
    pub fn pause(&mut self, elapsed: u64) -> (pause: u64)
        requires
            old(self).wf(),
        ensures
            final(self).wf(),
            pause == if elapsed >= STEADY_RUN {
                FIRST_PAUSE
            } else {
                old(self).next()
            },
            final(self).next() == if 2 * pause > LONGEST_PAUSE {
                LONGEST_PAUSE as int
            } else {
                2 * pause
            },
    {
        let pause: u64 = if elapsed >= STEADY_RUN {
            FIRST_PAUSE
        } else {
            self.next_pause
        };
        let doubled: u64 = pause * 2;
        self.next_pause = if doubled > LONGEST_PAUSE {
            LONGEST_PAUSE
        } else {
            doubled
        };
        pause
    }
}

// ---------------------------------------------------------------------------
// The attempt that is running
// ---------------------------------------------------------------------------

/// The run of a producer that can be cancelled from outside.
pub struct ActiveAttemptSlot {
    next_id: u64,
    active: Option<u64>,
}

impl ActiveAttemptSlot {
    pub closed spec fn running(&self) -> Option<u64> {
        self.active
    }

    pub closed spec fn upcoming(&self) -> u64 {
        self.next_id
    }

    pub fn new() -> (slot: ActiveAttemptSlot)
        ensures
            slot.running() is None,
            slot.upcoming() == 1,
    {
        ActiveAttemptSlot { next_id: 1, active: None }
    }

    /// Installs the next run, unless the session is already shutting down.
    pub fn begin(&mut self, shutting_down: bool) -> (id: Option<u64>)
        ensures
            if shutting_down {
                id is None && *final(self) == *old(self)
            } else {
                &&& id == Some(old(self).upcoming())
                &&& final(self).running() == id
                &&& final(self).upcoming() == old(self).upcoming().wrapping_add(1)
            },
    {
        if shutting_down {
            return None;
        }
        let id: u64 = self.next_id;
        self.next_id = self.next_id.wrapping_add(1);
        self.active = Some(id);
        Some(id)
    }

    /// Removes a run that ended, if it is still the one installed. Its context is
    /// then cancelled.
    pub fn finish(&mut self, id: u64) -> (cancel: bool)
        ensures
            cancel == (old(self).running() == Some(id)),
            final(self).running() == if cancel {
                None
            } else {
                old(self).running()
            },
            final(self).upcoming() == old(self).upcoming(),
    {
        let current = match self.active {
            Some(running) => running == id,
            None => false,
        };
        if current {
            self.active = None;
        }
        current
    }

    /// The run to cancel, if one is installed.
    pub fn cancel(&self) -> (id: Option<u64>)
        ensures
            id == self.running(),
    {
        self.active
    }
}

// ---------------------------------------------------------------------------
// The runs of a producer
// ---------------------------------------------------------------------------

/// How far the runs of a producer have come.
#[derive(Debug, Clone, Copy, PartialEq, Eq, Structural)]
pub enum LoopPhase {
    Beginning,
    Running(u64),
    Reporting,
    Pausing,
    Stopped,
}

/// What became of the last step.
pub enum LoopEvent {
    /// The run that was begun; none where the session is shutting down.
    Begun(Option<u64>),
    /// How the run ended, and whether the session is shutting down.
    Ended { end: RunEnd, cancelled: bool },
    /// Whether the report was taken, and how long the run took.
    Sent { taken: bool, elapsed: u64 },
    /// Whether the pause ended because the session is shutting down.
    Paused { cancelled: bool },
}

/// The step to take next.
pub enum LoopAction {
    Begin,
    /// Wait for the end of the run and let go of it.
    Await(u64),
    Send(DesktopDomainState),
    Pause(u64),
    Stop,
}

/// Whether a step can have led to an event.
pub open spec fn loop_expects(phase: LoopPhase, event: LoopEvent) -> bool {
    match phase {
        LoopPhase::Beginning => event is Begun,
        LoopPhase::Running(_) => event is Ended,
        LoopPhase::Reporting => event is Sent,
        LoopPhase::Pausing => event is Paused,
        LoopPhase::Stopped => false,
    }
}

/// Whether a step follows: a run that ended is reported, and after a pause the next
/// one is begun. A session that is shutting down begins no more runs.
pub open spec fn loop_follows(
    domain: DesktopDomainId,
    next_pause: u64,
    phase: LoopPhase,
    event: LoopEvent,
    next: LoopPhase,
    action: LoopAction,
) -> bool {
    match (phase, event) {
        (LoopPhase::Beginning, LoopEvent::Begun(begun)) => match begun {
            Some(id) => next == LoopPhase::Running(id) && action == LoopAction::Await(id),
            None => next == LoopPhase::Stopped && action is Stop,
        },
        (LoopPhase::Running(_), LoopEvent::Ended { end, cancelled }) => if cancelled {
            next == LoopPhase::Stopped && action is Stop
        } else {
            &&& next == LoopPhase::Reporting
            &&& action is Send
            &&& failed_as(
                action->Send_0,
                domain,
                CapabilityAvailability::Error,
                end_reason(end),
            )
        },
        (LoopPhase::Reporting, LoopEvent::Sent { taken, elapsed }) => if !taken {
            next == LoopPhase::Stopped && action is Stop
        } else {
            &&& next == LoopPhase::Pausing
            &&& action == LoopAction::Pause(
                if elapsed >= STEADY_RUN {
                    FIRST_PAUSE
                } else {
                    next_pause
                },
            )
        },
        (LoopPhase::Pausing, LoopEvent::Paused { cancelled }) => if cancelled {
            next == LoopPhase::Stopped && action is Stop
        } else {
            next == LoopPhase::Beginning && action is Begin
        },
        _ => false,
    }
}

/// No run is begun while another is running or before the last one was reported,
/// and none once the runs have stopped.
pub proof fn runs_do_not_overlap(
    domain: DesktopDomainId,
    next_pause: u64,
    phase: LoopPhase,
    event: LoopEvent,
    next: LoopPhase,
    action: LoopAction,
)
    requires
        loop_follows(domain, next_pause, phase, event, next, action),
    ensures
        action is Begin ==> phase == LoopPhase::Pausing,
        next == LoopPhase::Pausing ==> phase == LoopPhase::Reporting,
        next == LoopPhase::Reporting ==> phase is Running && action is Send,
        phase != LoopPhase::Stopped,
{
}

/// The runs of one producer, one after the other.
pub struct ProducerLoop {
    domain: DesktopDomainId,
    restarts: Restarts,
    phase: LoopPhase,
}

impl ProducerLoop {
    pub closed spec fn of(&self) -> DesktopDomainId {
        self.domain
    }

    pub closed spec fn at(&self) -> LoopPhase {
        self.phase
    }

    /// The pause after the next run that is not a steady one.
    pub closed spec fn next_pause(&self) -> u64 {
        self.restarts.next()
    }

    pub closed spec fn wf(&self) -> bool {
        self.restarts.wf()
    }

    pub fn new(domain: DesktopDomainId) -> (runs: ProducerLoop)
        ensures
            runs.wf(),
            runs.of() == domain,
            runs.at() == LoopPhase::Beginning,
            runs.next_pause() == FIRST_PAUSE,
    {
        ProducerLoop { domain, restarts: Restarts::new(), phase: LoopPhase::Beginning }
    }

    /// Whether an event can come now.
    pub fn awaits(&self, event: &LoopEvent) -> (fits: bool)
        ensures
            fits == loop_expects(self.at(), *event),
    {
        match (self.phase, event) {
            (LoopPhase::Beginning, LoopEvent::Begun(_)) => true,
            (LoopPhase::Running(_), LoopEvent::Ended { .. }) => true,
            (LoopPhase::Reporting, LoopEvent::Sent { .. }) => true,
            (LoopPhase::Pausing, LoopEvent::Paused { .. }) => true,
            _ => false,
        }
    }

    /// The step that follows on what became of the last one.
    pub fn advance(&mut self, event: LoopEvent) -> (action: LoopAction)
        requires
            old(self).wf(),
            loop_expects(old(self).at(), event),
            event matches LoopEvent::Ended { end, cancelled } ==> cancelled || !is_blank(
                end_reason(end),
            ),
        ensures
            final(self).wf(),
            final(self).of() == old(self).of(),
            loop_follows(
                old(self).of(),
                old(self).next_pause(),
                old(self).at(),
                event,
                final(self).at(),
                action,
            ),
            final(self).next_pause() == match action {
                LoopAction::Pause(pause) => if 2 * pause > LONGEST_PAUSE {
                    LONGEST_PAUSE as int
                } else {
                    2 * pause
                },
                _ => old(self).next_pause() as int,
            },
    {
        match event {
            LoopEvent::Begun(begun) => match begun {
                Some(id) => {
                    self.phase = LoopPhase::Running(id);
                    LoopAction::Await(id)
                },
                None => {
                    self.phase = LoopPhase::Stopped;
                    LoopAction::Stop
                },
            },
            LoopEvent::Ended { end, cancelled } => if cancelled {
                self.phase = LoopPhase::Stopped;
                LoopAction::Stop
            } else {
                self.phase = LoopPhase::Reporting;
                LoopAction::Send(ended_state(self.domain, end))
            },
            LoopEvent::Sent { taken, elapsed } => if !taken {
                self.phase = LoopPhase::Stopped;
                LoopAction::Stop
            } else {
                self.phase = LoopPhase::Pausing;
                LoopAction::Pause(self.restarts.pause(elapsed))
            },
            LoopEvent::Paused { cancelled } => if cancelled {
                self.phase = LoopPhase::Stopped;
                LoopAction::Stop
            } else {
                self.phase = LoopPhase::Beginning;
                LoopAction::Begin
            },
        }
    }
}

/// Accepts a queue of reports with room for at least one.
pub fn check_queue_capacity(capacity: usize) -> (checked: Result<(), SessionError>)
    ensures
        if capacity == 0 {
            fails_with(
                checked,
                ErrorKind::InvalidInput,
                "desktop producer queue capacity must be positive"@,
            )
        } else {
            checked is Ok
        },
{
    if capacity == 0 {
        return Err(
            SessionError::new(
                ErrorKind::InvalidInput,
                "desktop producer queue capacity must be positive",
            ),
        );
    }
    Ok(())
}

/// How the aggregator ends after a publication, if it does: a publication that
/// fails ends it with that failure, unless the session is shutting down.
pub fn after_publication(published: Result<(), SessionError>, cancelled: bool) -> (end: Option<
    Result<(), SessionError>,
>)
    ensures
        match published {
            Ok(_) => end is None,
            Err(error) => end is Some && if cancelled {
                end->Some_0 is Ok
            } else {
                end->Some_0 is Err && end->Some_0->Err_0 == error
            },
        },
{
    match published {
        Ok(_) => None,
        Err(error) => if cancelled {
            Some(Ok(()))
        } else {
            Some(Err(error))
        },
    }
}

// ---------------------------------------------------------------------------
// The end
// ---------------------------------------------------------------------------

/// How waiting for a task ended.
pub enum TaskEnd {
    Finished,
    Failed(String),
    TimedOut,
}

/// How waiting for the aggregator ended.
pub enum AggregatorEnd {
    Finished,
    Rejected(SessionError),
    Failed(String),
    TimedOut,
}

/// What a shutdown waits for.
#[derive(Debug, Clone, Copy, PartialEq, Eq, Structural)]
pub enum ShutdownPhase {
    /// The end of a producer.
    Producer(usize),
    /// The end of a producer that was aborted.
    Reaping(usize),
    Aggregator,
    /// The blocking workers of a producer.
    Workers(usize),
    /// The publication worker.
    Publication,
    Ended,
}

/// A shutdown that comes to a producer, or past the last.
pub open spec fn at_producer(producers: usize, index: int) -> ShutdownPhase {
    if index < producers {
        ShutdownPhase::Producer(index as usize)
    } else {
        ShutdownPhase::Aggregator
    }
}

/// A shutdown that comes to a producer that was aborted, or past the last.
pub open spec fn at_reaping(producers: usize, index: int) -> ShutdownPhase {
    if index < producers {
        ShutdownPhase::Reaping(index as usize)
    } else {
        ShutdownPhase::Aggregator
    }
}

/// A shutdown that comes to the workers of a producer, or past the last.
pub open spec fn at_workers(producers: usize, index: int) -> ShutdownPhase {
    if index < producers {
        ShutdownPhase::Workers(index as usize)
    } else {
        ShutdownPhase::Publication
    }
}

/// Whether a phase can follow another. The producers come first, one after the other;
/// when one takes too long it and all after it are reaped. Then come the aggregator,
/// the workers of each producer, and the publication worker.
pub open spec fn follows(producers: usize, phase: ShutdownPhase, next: ShutdownPhase) -> bool {
    match phase {
        ShutdownPhase::Producer(index) => next == at_producer(producers, index + 1) || next
            == ShutdownPhase::Reaping(index),
        ShutdownPhase::Reaping(index) => next == at_reaping(producers, index + 1),
        ShutdownPhase::Aggregator => next == at_workers(producers, 0),
        ShutdownPhase::Workers(index) => next == at_workers(producers, index + 1),
        ShutdownPhase::Publication => next == ShutdownPhase::Ended,
        ShutdownPhase::Ended => false,
    }
}

/// How far a shutdown has come.
pub open spec fn progress(producers: usize, phase: ShutdownPhase) -> int {
    match phase {
        ShutdownPhase::Producer(index) => index as int,
        ShutdownPhase::Reaping(index) => producers + index,
        ShutdownPhase::Aggregator => 2 * producers,
        ShutdownPhase::Workers(index) => 2 * producers + 1 + index,
        ShutdownPhase::Publication => 3 * producers + 1,
        ShutdownPhase::Ended => 3 * producers + 2,
    }
}

/// Whether a phase is one of a shutdown of so many producers.
pub open spec fn in_range(producers: usize, phase: ShutdownPhase) -> bool {
    match phase {
        ShutdownPhase::Producer(index) => index < producers,
        ShutdownPhase::Reaping(index) => index < producers,
        ShutdownPhase::Workers(index) => index < producers,
        _ => true,
    }
}

/// A shutdown never goes back, and it ends: every phase brings it further, and none
/// brings it beyond its end.
pub proof fn a_shutdown_goes_forward(
    producers: usize,
    phase: ShutdownPhase,
    next: ShutdownPhase,
)
    requires
        in_range(producers, phase),
        follows(producers, phase, next),
    ensures
        in_range(producers, next),
        progress(producers, phase) < progress(producers, next) <= progress(
            producers,
            ShutdownPhase::Ended,
        ),
{
}

/// How far a shutdown has come: what it waits for, the first failure so far, and
/// whether waiting for a producer took too long.
pub struct Shutdown {
    producers: usize,
    phase: ShutdownPhase,
    failure: Option<SessionError>,
    timed_out: bool,
}

/// Whether the failure after a step is the first one: an earlier one stands, and
/// otherwise the new one is taken.
pub open spec fn first_failure(
    before: Option<SessionError>,
    new: Option<(ErrorKind, Seq<char>)>,
    after: Option<SessionError>,
) -> bool {
    if before is Some {
        after == before
    } else {
        match new {
            Some(failure) => after is Some && error_is(after->Some_0, failure.0, failure.1),
            None => after is None,
        }
    }
}

pub open spec fn producer_failure(end: TaskEnd) -> Option<(ErrorKind, Seq<char>)> {
    match end {
        TaskEnd::Finished => None,
        TaskEnd::Failed(error) => Some(
            (ErrorKind::Other, "desktop producer task failed: "@ + error@),
        ),
        TaskEnd::TimedOut => Some((ErrorKind::TimedOut, "desktop producers did not drain"@)),
    }
}

pub open spec fn reaping_failure(end: TaskEnd) -> Option<(ErrorKind, Seq<char>)> {
    match end {
        TaskEnd::Finished => None,
        TaskEnd::Failed(error) => Some(
            (ErrorKind::Other, "desktop producer task failed while draining: "@ + error@),
        ),
        TaskEnd::TimedOut => None,
    }
}

pub open spec fn aggregator_failure(end: AggregatorEnd) -> Option<(ErrorKind, Seq<char>)> {
    match end {
        AggregatorEnd::Finished => None,
        AggregatorEnd::Rejected(error) => Some((error.kind, error.message@)),
        AggregatorEnd::Failed(error) => Some(
            (ErrorKind::Other, "desktop producer aggregator failed: "@ + error@),
        ),
        AggregatorEnd::TimedOut => Some(
            (ErrorKind::TimedOut, "desktop producer aggregator did not drain"@),
        ),
    }
}

/// A failure with the text of what failed.
fn with_detail(prefix: &str, detail: &String) -> (error: SessionError)
    ensures
        error_is(error, ErrorKind::Other, prefix@ + detail@),
{
    let mut message = prefix.to_owned();
    message.append(detail.as_str());
    SessionError { kind: ErrorKind::Other, message }
}

impl Shutdown {
    pub closed spec fn failed(&self) -> Option<SessionError> {
        self.failure
    }

    pub closed spec fn late(&self) -> bool {
        self.timed_out
    }

    /// How many producers there are.
    pub closed spec fn count(&self) -> usize {
        self.producers
    }

    /// What is waited for.
    pub closed spec fn stage(&self) -> ShutdownPhase {
        self.phase
    }

    pub closed spec fn wf(&self) -> bool {
        in_range(self.producers, self.phase)
    }

    /// Whether a step led on to another phase, and changed nothing of the rest.
    pub open spec fn moved(&self, next: Shutdown, phase: ShutdownPhase) -> bool {
        &&& next.wf()
        &&& next.count() == self.count()
        &&& next.stage() == phase
        &&& follows(self.count(), self.stage(), next.stage())
    }

    pub fn new(producers: usize) -> (shutdown: Shutdown)
        ensures
            shutdown.wf(),
            shutdown.count() == producers,
            shutdown.stage() == at_producer(producers, 0),
            shutdown.failed() is None,
            !shutdown.late(),
    {
        let phase = if producers > 0 {
            ShutdownPhase::Producer(0)
        } else {
            ShutdownPhase::Aggregator
        };
        Shutdown { producers, phase, failure: None, timed_out: false }
    }

    /// What is waited for.
    pub fn phase(&self) -> (phase: ShutdownPhase)
        ensures
            phase == self.stage(),
    {
        self.phase
    }

    fn note(&mut self, error: SessionError)
        ensures
            first_failure(
                old(self).failed(),
                Some((error.kind, error.message@)),
                final(self).failed(),
            ),
            final(self).late() == old(self).late(),
            final(self).stage() == old(self).stage(),
            final(self).count() == old(self).count(),
    {
        if self.failure.is_none() {
            self.failure = Some(error);
        }
    }

    /// The workers of a producer, or what comes after the last of them.
    fn workers_from(&self, index: usize) -> (phase: ShutdownPhase)
        ensures
            phase == at_workers(self.count(), index as int),
    {
        if index < self.producers {
            ShutdownPhase::Workers(index)
        } else {
            ShutdownPhase::Publication
        }
    }

    /// A producer ended. If it took too long, it and all that follow are aborted
    /// and reaped.
    pub fn producer_ended(&mut self, end: TaskEnd) -> (abort_rest: bool)
        requires
            old(self).wf(),
            old(self).stage() is Producer,
        ensures
            old(self).moved(
                *final(self),
                if end is TimedOut {
                    ShutdownPhase::Reaping(old(self).stage()->Producer_0)
                } else {
                    at_producer(old(self).count(), old(self).stage()->Producer_0 + 1)
                },
            ),
            first_failure(old(self).failed(), producer_failure(end), final(self).failed()),
            abort_rest == (end is TimedOut),
            final(self).late() == (old(self).late() || end is TimedOut),
    {
        if let ShutdownPhase::Producer(index) = self.phase {
            self.phase = if let TaskEnd::TimedOut = end {
                ShutdownPhase::Reaping(index)
            } else if index + 1 < self.producers {
                ShutdownPhase::Producer(index + 1)
            } else {
                ShutdownPhase::Aggregator
            };
        }
        match end {
            TaskEnd::Finished => false,
            TaskEnd::Failed(error) => {
                self.note(with_detail("desktop producer task failed: ", &error));
                false
            },
            TaskEnd::TimedOut => {
                self.timed_out = true;
                self.note(
                    SessionError::new(ErrorKind::TimedOut, "desktop producers did not drain"),
                );
                true
            },
        }
    }

    /// An aborted producer ended. If it took too long, its task is aborted.
    pub fn producer_reaped(&mut self, end: TaskEnd) -> (abort: bool)
        requires
            old(self).wf(),
            old(self).stage() is Reaping,
        ensures
            old(self).moved(
                *final(self),
                at_reaping(old(self).count(), old(self).stage()->Reaping_0 + 1),
            ),
            first_failure(old(self).failed(), reaping_failure(end), final(self).failed()),
            abort == (end is TimedOut),
            final(self).late() == old(self).late(),
    {
        if let ShutdownPhase::Reaping(index) = self.phase {
            self.phase = if index + 1 < self.producers {
                ShutdownPhase::Reaping(index + 1)
            } else {
                ShutdownPhase::Aggregator
            };
        }
        match end {
            TaskEnd::Finished => false,
            TaskEnd::Failed(error) => {
                self.note(with_detail("desktop producer task failed while draining: ", &error));
                false
            },
            TaskEnd::TimedOut => true,
        }
    }

    /// Until when the aggregator is waited for.
    pub fn aggregator_deadline(&self, deadline: u64, reap_deadline: u64) -> (until: u64)
        requires
            self.stage() is Aggregator,
        ensures
            until == if self.late() {
                reap_deadline
            } else {
                deadline
            },
    {
        if self.timed_out {
            reap_deadline
        } else {
            deadline
        }
    }

    /// The aggregator ended. If it took too long, it is aborted.
    pub fn aggregator_ended(&mut self, end: AggregatorEnd) -> (abort: bool)
        requires
            old(self).wf(),
            old(self).stage() is Aggregator,
        ensures
            old(self).moved(*final(self), at_workers(old(self).count(), 0)),
            first_failure(old(self).failed(), aggregator_failure(end), final(self).failed()),
            abort == (end is TimedOut),
            final(self).late() == old(self).late(),
    {
        self.phase = self.workers_from(0);
        match end {
            AggregatorEnd::Finished => false,
            AggregatorEnd::Rejected(error) => {
                self.note(error);
                false
            },
            AggregatorEnd::Failed(error) => {
                self.note(with_detail("desktop producer aggregator failed: ", &error));
                false
            },
            AggregatorEnd::TimedOut => {
                self.note(
                    SessionError::new(
                        ErrorKind::TimedOut,
                        "desktop producer aggregator did not drain",
                    ),
                );
                true
            },
        }
    }

    /// The blocking workers of a producer are idle, or have to be drained.
    pub fn workers_idle(&mut self, idle: bool) -> (drain: bool)
        requires
            old(self).wf(),
            old(self).stage() is Workers,
        ensures
            old(self).moved(
                *final(self),
                at_workers(old(self).count(), old(self).stage()->Workers_0 + 1),
            ),
            first_failure(
                old(self).failed(),
                if idle {
                    None
                } else {
                    Some(
                        (
                            ErrorKind::TimedOut,
                            "desktop producer blocking workers did not drain"@,
                        ),
                    )
                },
                final(self).failed(),
            ),
            drain == !idle,
            final(self).late() == old(self).late(),
    {
        if let ShutdownPhase::Workers(index) = self.phase {
            self.phase = self.workers_from(index + 1);
        }
        if !idle {
            self.note(
                SessionError::new(
                    ErrorKind::TimedOut,
                    "desktop producer blocking workers did not drain",
                ),
            );
        }
        !idle
    }

    /// The publication worker is idle, or has to be drained.
    pub fn publication_idle(&mut self, idle: bool) -> (drain: bool)
        requires
            old(self).wf(),
            old(self).stage() is Publication,
        ensures
            old(self).moved(*final(self), ShutdownPhase::Ended),
            first_failure(
                old(self).failed(),
                if idle {
                    None
                } else {
                    Some((ErrorKind::TimedOut, "desktop publication worker did not drain"@))
                },
                final(self).failed(),
            ),
            drain == !idle,
            final(self).late() == old(self).late(),
    {
        self.phase = ShutdownPhase::Ended;
        if !idle {
            self.note(
                SessionError::new(
                    ErrorKind::TimedOut,
                    "desktop publication worker did not drain",
                ),
            );
        }
        !idle
    }

    /// How the shutdown ended: with its first failure, if there was one.
    pub fn outcome(self) -> (outcome: Result<(), SessionError>)
        requires
            self.stage() is Ended,
        ensures
            match self.failed() {
                Some(error) => outcome == Err::<(), SessionError>(error),
                None => outcome is Ok,
            },
    {
        match self.failure {
            Some(error) => Err(error),
            None => Ok(()),
        }
    }
}

/// The first failure of a shutdown is the one it ends with, whatever follows it.
pub proof fn the_first_failure_stands(
    before: Option<SessionError>,
    new: Option<(ErrorKind, Seq<char>)>,
    after: Option<SessionError>,
    later: Option<(ErrorKind, Seq<char>)>,
    end: Option<SessionError>,
)
    requires
        first_failure(before, new, after),
        first_failure(after, later, end),
    ensures
        before is Some ==> end == before,
        before is None && new is Some ==> end is Some && error_is(
            end->Some_0,
            new->Some_0.0,
            new->Some_0.1,
        ),
        before is None && new is None && later is None ==> end is None,
{
}

// ---------------------------------------------------------------------------
// Deadlines, in milliseconds
// ---------------------------------------------------------------------------

pub const INITIAL_DEADLINE: u64 = 2_000;

pub const INITIAL_PROBE_BUDGET: u64 = 1_500;

/// What is left to a producer to end after its first report is given up.
pub const INITIAL_DRAIN_BUDGET: u64 = 250;

pub const PRODUCER_SHUTDOWN_TOLERANCE: u64 = 100;

/// Until when first reports are waited for, and until when their producers may
/// still end. Neither is later than the deadline of the whole.
pub fn initial_deadlines(now: u64, overall: u64) -> (deadlines: (u64, u64))
    requires
        now + INITIAL_PROBE_BUDGET + INITIAL_DRAIN_BUDGET <= u64::MAX,
    ensures
        deadlines.0 == if now + INITIAL_PROBE_BUDGET < overall {
            now + INITIAL_PROBE_BUDGET
        } else {
            overall as int
        },
        deadlines.1 == if deadlines.0 + INITIAL_DRAIN_BUDGET < overall {
            deadlines.0 + INITIAL_DRAIN_BUDGET
        } else {
            overall as int
        },
        deadlines.0 <= deadlines.1 <= overall,
{
    let probe: u64 = if now + INITIAL_PROBE_BUDGET < overall {
        now + INITIAL_PROBE_BUDGET
    } else {
        overall
    };
    let drain: u64 = if probe + INITIAL_DRAIN_BUDGET < overall {
        probe + INITIAL_DRAIN_BUDGET
    } else {
        overall
    };
    (probe, drain)
}

/// Fails once the deadline of the start has come.
pub fn ensure_initial_deadline(now: u64, deadline: u64) -> (checked: Result<(), SessionError>)
    ensures
        if now >= deadline {
            fails_with(checked, ErrorKind::TimedOut, "desktop.initialization-timeout"@)
        } else {
            checked is Ok
        },
{
    if now >= deadline {
        Err(SessionError::new(ErrorKind::TimedOut, "desktop.initialization-timeout"))
    } else {
        Ok(())
    }
}

/// How a publication that can be cancelled stands.
pub struct PublicationControl {
    pub cancelled: bool,
    pub time_left: bool,
}

/// Fails once a publication is cancelled or out of time.
pub fn ensure_publication_active(control: Option<PublicationControl>) -> (checked: Result<
    (),
    SessionError,
>)
    ensures
        match control {
            Some(control) => if control.cancelled {
                fails_with(checked, ErrorKind::Interrupted, "desktop publication was cancelled"@)
            } else if !control.time_left {
                fails_with(
                    checked,
                    ErrorKind::TimedOut,
                    "desktop publication exceeded its deadline"@,
                )
            } else {
                checked is Ok
            },
            None => checked is Ok,
        },
{
    match control {
        Some(control) => {
            if control.cancelled {
                Err(SessionError::new(ErrorKind::Interrupted, "desktop publication was cancelled"))
            } else if !control.time_left {
                Err(
                    SessionError::new(
                        ErrorKind::TimedOut,
                        "desktop publication exceeded its deadline",
                    ),
                )
            } else {
                Ok(())
            }
        },
        None => Ok(()),
    }
}

} // verus!

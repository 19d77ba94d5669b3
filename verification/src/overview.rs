//! The overview of a Niri session: its events, and commands that count as done
//! only once an event confirms them.

use vstd::prelude::*;

use crate::error::{fails_with, invalid, invalid_input, ErrorKind, SessionError};
use crate::text::{decimal, decimal_text, same_text, texts};

verus! {

// ---------------------------------------------------------------------------
// Events
// ---------------------------------------------------------------------------

#[derive(Debug, Clone, PartialEq, Eq)]
pub enum OverviewEvent {
    FocusChanged { output_id: String, window_id: Option<u64>, workspace_id: u64, sequence: u64 },
    WindowClosed { window_id: u64, sequence: u64 },
    Offline { sequence: u64 },
}

pub open spec fn number_of(event: OverviewEvent) -> u64 {
    match event {
        OverviewEvent::FocusChanged { sequence, .. } => sequence,
        OverviewEvent::WindowClosed { sequence, .. } => sequence,
        OverviewEvent::Offline { sequence } => sequence,
    }
}

/// Whether two events say the same.
pub open spec fn same_event(left: OverviewEvent, right: OverviewEvent) -> bool {
    match (left, right) {
        (
            OverviewEvent::FocusChanged { output_id, window_id, workspace_id, sequence },
            OverviewEvent::FocusChanged {
                output_id: other_output,
                window_id: other_window,
                workspace_id: other_workspace,
                sequence: other_sequence,
            },
        ) => {
            &&& output_id@ == other_output@
            &&& window_id == other_window
            &&& workspace_id == other_workspace
            &&& sequence == other_sequence
        },
        (
            OverviewEvent::WindowClosed { window_id, sequence },
            OverviewEvent::WindowClosed { window_id: other_window, sequence: other_sequence },
        ) => window_id == other_window && sequence == other_sequence,
        (
            OverviewEvent::Offline { sequence },
            OverviewEvent::Offline { sequence: other_sequence },
        ) => sequence == other_sequence,
        _ => false,
    }
}

impl OverviewEvent {
    pub fn sequence(&self) -> (sequence: u64)
        ensures
            sequence == number_of(*self),
    {
        match self {
            OverviewEvent::FocusChanged { sequence, .. } => *sequence,
            OverviewEvent::WindowClosed { sequence, .. } => *sequence,
            OverviewEvent::Offline { sequence } => *sequence,
        }
    }

    pub fn copy(&self) -> (copy: OverviewEvent)
        ensures
            same_event(copy, *self),
            number_of(copy) == number_of(*self),
    {
        match self {
            OverviewEvent::FocusChanged { output_id, window_id, workspace_id, sequence } =>
                OverviewEvent::FocusChanged {
                    output_id: output_id.clone(),
                    window_id: *window_id,
                    workspace_id: *workspace_id,
                    sequence: *sequence,
                },
            OverviewEvent::WindowClosed { window_id, sequence } => OverviewEvent::WindowClosed {
                window_id: *window_id,
                sequence: *sequence,
            },
            OverviewEvent::Offline { sequence } => OverviewEvent::Offline { sequence: *sequence },
        }
    }
}

/// An event with the time at which it was observed.
#[derive(Debug)]
pub struct ObservedOverviewEvent {
    pub event: OverviewEvent,
    pub observed_at: u64,
}

pub open spec fn same_observed(left: ObservedOverviewEvent, right: ObservedOverviewEvent) -> bool {
    same_event(left.event, right.event) && left.observed_at == right.observed_at
}

impl ObservedOverviewEvent {
    /// An event that was observed now.
    pub fn now(event: OverviewEvent, now: u64) -> (observed: ObservedOverviewEvent)
        ensures
            observed.event == event,
            observed.observed_at == now,
    {
        ObservedOverviewEvent { event, observed_at: now }
    }

    pub fn copy(&self) -> (copy: ObservedOverviewEvent)
        ensures
            same_observed(copy, *self),
            number_of(copy.event) == number_of(self.event),
    {
        ObservedOverviewEvent { event: self.event.copy(), observed_at: self.observed_at }
    }
}

// ---------------------------------------------------------------------------
// The channel
// ---------------------------------------------------------------------------

/// The sending end: it retains the latest events for readers.
pub struct OverviewEventSender {
    events: Vec<ObservedOverviewEvent>,
    capacity: usize,
    latest_sequence: u64,
    dropped_through: u64,
}

/// A reading end: how far it has read.
pub struct ChannelOverviewEvents {
    cursor: u64,
}

pub open spec fn increasing(events: Seq<ObservedOverviewEvent>) -> bool {
    forall|i: int, j: int|
        #![trigger events[i], events[j]]
        0 <= i < j < events.len() ==> number_of(events[i].event) < number_of(events[j].event)
}

impl OverviewEventSender {
    pub closed spec fn retained(&self) -> Seq<ObservedOverviewEvent> {
        self.events@
    }

    pub closed spec fn room(&self) -> nat {
        self.capacity as nat
    }

    pub closed spec fn latest(&self) -> u64 {
        self.latest_sequence
    }

    pub closed spec fn dropped(&self) -> u64 {
        self.dropped_through
    }

    /// The retained events are in order, after the dropped ones, and the last of
    /// them is the latest.
    pub open spec fn wf(&self) -> bool {
        &&& increasing(self.retained())
        &&& 1 <= self.room()
        &&& self.retained().len() <= self.room()
        &&& self.dropped() <= self.latest()
        &&& forall|i: int|
            0 <= i < self.retained().len() ==> {
                let sequence = number_of((#[trigger] self.retained()[i]).event);
                self.dropped() < sequence <= self.latest()
            }
        &&& self.retained().len() > 0 ==> number_of(self.retained().last().event) == self.latest()
    }

    /// Takes in an event. An event that is not later than the latest is ignored;
    /// where there is no room, the oldest is dropped.
    pub fn publish(&mut self, event: OverviewEvent, now: u64)
        requires
            old(self).wf(),
        ensures
            final(self).wf(),
            final(self).room() == old(self).room(),
            if number_of(event) <= old(self).latest() {
                *final(self) == *old(self)
            } else {
                let observed = ObservedOverviewEvent { event, observed_at: now };
                &&& final(self).latest() == number_of(event)
                &&& if old(self).retained().len() == old(self).room() {
                    &&& final(self).retained() == old(self).retained().skip(1).push(observed)
                    &&& final(self).dropped() == number_of(old(self).retained()[0].event)
                } else {
                    &&& final(self).retained() == old(self).retained().push(observed)
                    &&& final(self).dropped() == old(self).dropped()
                }
            },
    {
        let sequence: u64 = event.sequence();
        if sequence <= self.latest_sequence {
            return;
        }
        let ghost before = self.events@;
        if self.events.len() == self.capacity {
            let dropped = self.events.remove(0);
            assert(self.events@ =~= before.skip(1));
            self.dropped_through = dropped.event.sequence();
        }
        let ghost kept = self.events@;
        self.latest_sequence = sequence;
        self.events.push(ObservedOverviewEvent::now(event, now));
        proof {
            assert forall|i: int, j: int|
                #![trigger self.retained()[i], self.retained()[j]]
                0 <= i < j < self.retained().len() implies number_of(self.retained()[i].event)
                < number_of(self.retained()[j].event) by {
                if kept == before {
                    assert(i < before.len() ==> self.retained()[i] == before[i]);
                    assert(j < before.len() ==> self.retained()[j] == before[j]);
                } else {
                    assert(i < kept.len() ==> self.retained()[i] == before[i + 1]);
                    assert(j < kept.len() ==> self.retained()[j] == before[j + 1]);
                }
            }
            assert forall|i: int| 0 <= i < self.retained().len() implies ({
                let sequence = number_of((#[trigger] self.retained()[i]).event);
                self.dropped() < sequence <= self.latest()
            }) by {
                if i < kept.len() {
                    if kept == before {
                        assert(self.retained()[i] == before[i]);
                    } else {
                        assert(self.retained()[i] == before[i + 1]);
                        assert(number_of(before[0].event) < number_of(before[i + 1].event));
                    }
                }
            }
        }
    }
}

/// A channel that retains so many events, and at least one.
pub fn overview_event_channel(capacity: usize) -> (channel: (
    OverviewEventSender,
    ChannelOverviewEvents,
))
    ensures
        channel.0.wf(),
        channel.0.room() == if capacity == 0 {
            1
        } else {
            capacity as int
        },
        channel.0.retained() == Seq::<ObservedOverviewEvent>::empty(),
        channel.0.latest() == 0,
        channel.0.dropped() == 0,
        channel.1.read_through() == 0,
{
    (
        OverviewEventSender {
            events: Vec::new(),
            capacity: if capacity == 0 {
                1
            } else {
                capacity
            },
            latest_sequence: 0,
            dropped_through: 0,
        },
        ChannelOverviewEvents { cursor: 0 },
    )
}

/// The place of the first event after a sequence number, or the number of events.
pub open spec fn first_after(events: Seq<ObservedOverviewEvent>, sequence: u64) -> int
    decreases events.len(),
{
    if events.len() == 0 || number_of(events[0].event) > sequence {
        0
    } else {
        1 + first_after(events.skip(1), sequence)
    }
}

proof fn first_after_facts(events: Seq<ObservedOverviewEvent>, sequence: u64)
    ensures
        0 <= first_after(events, sequence) <= events.len(),
        first_after(events, sequence) < events.len() ==> number_of(
            events[first_after(events, sequence)].event,
        ) > sequence,
        forall|i: int|
            0 <= i < first_after(events, sequence) ==> number_of((#[trigger] events[i]).event)
                <= sequence,
    decreases events.len(),
{
    if events.len() > 0 && number_of(events[0].event) <= sequence {
        first_after_facts(events.skip(1), sequence);
        assert forall|i: int| 0 <= i < first_after(events, sequence) implies number_of(
            (#[trigger] events[i]).event,
        ) <= sequence by {
            if i > 0 {
                assert(events.skip(1)[i - 1] == events[i]);
            }
        }
    }
}

proof fn first_after_is(events: Seq<ObservedOverviewEvent>, sequence: u64, at: int)
    requires
        0 <= at <= events.len(),
        at < events.len() ==> number_of(events[at].event) > sequence,
        forall|i: int| 0 <= i < at ==> number_of((#[trigger] events[i]).event) <= sequence,
    ensures
        first_after(events, sequence) == at,
{
    first_after_facts(events, sequence);
    let found = first_after(events, sequence);
    if found < at {
        assert(number_of(events[found].event) <= sequence);
    }
    if at < found {
        assert(number_of(events[at].event) <= sequence);
    }
}

/// A reader gets every event exactly once and in order: after it got one, the
/// next one is the one behind it.
pub proof fn events_are_read_in_order(events: Seq<ObservedOverviewEvent>, cursor: u64)
    requires
        increasing(events),
        first_after(events, cursor) < events.len(),
    ensures
        ({
            let at = first_after(events, cursor);
            let read = number_of(events[at].event);
            &&& read > cursor
            &&& first_after(events, read) == at + 1
        }),
{
    first_after_facts(events, cursor);
    let at = first_after(events, cursor);
    let read = number_of(events[at].event);
    assert forall|i: int| 0 <= i < at + 1 implies number_of((#[trigger] events[i]).event)
        <= read by {
        if i < at {
            assert(number_of(events[i].event) <= cursor);
        }
    }
    if at + 1 < events.len() {
        assert(number_of(events[at].event) < number_of(events[at + 1].event));
    }
    first_after_is(events, read, at + 1);
}

impl ChannelOverviewEvents {
    pub closed spec fn read_through(&self) -> u64 {
        self.cursor
    }

    /// Whether there is something to read: a later event, or the news that events
    /// were dropped.
    pub fn is_behind(&self, channel: &OverviewEventSender) -> (behind: bool)
        ensures
            behind == (channel.latest() > self.read_through() || channel.dropped()
                > self.read_through()),
    {
        channel.latest_sequence > self.cursor || channel.dropped_through > self.cursor
    }

    /// The next event, if there is one. A reader that missed events is told so
    /// once.
    pub fn try_event(&mut self, channel: &OverviewEventSender) -> (event: Result<
        Option<ObservedOverviewEvent>,
        SessionError,
    >)
        ensures
            if old(self).read_through() < channel.dropped() {
                &&& fails_with(
                    event,
                    ErrorKind::InvalidData,
                    "Niri overview event subscription lagged"@,
                )
                &&& final(self).read_through() == channel.dropped()
            } else {
                let at = first_after(channel.retained(), old(self).read_through());
                &&& event is Ok
                &&& if at < channel.retained().len() {
                    &&& event->Ok_0 is Some
                    &&& same_observed(event->Ok_0->Some_0, channel.retained()[at])
                    &&& final(self).read_through() == number_of(channel.retained()[at].event)
                } else {
                    &&& event->Ok_0 is None
                    &&& final(self).read_through() == old(self).read_through()
                }
            },
    {
        if self.cursor < channel.dropped_through {
            self.cursor = channel.dropped_through;
            return invalid("Niri overview event subscription lagged");
        }
        let mut i: usize = 0;
        while i < channel.events.len()
            invariant
                i <= channel.events@.len(),
                self.cursor == old(self).cursor,
                forall|j: int|
                    0 <= j < i ==> number_of((#[trigger] channel.events@[j]).event) <= self.cursor,
                old(self).cursor >= channel.dropped_through,
            decreases channel.events.len() - i,
        {
            if channel.events[i].event.sequence() > self.cursor {
                proof {
                    first_after_is(channel.events@, self.cursor, i as int);
                }
                let event = channel.events[i].copy();
                self.cursor = channel.events[i].event.sequence();
                return Ok(Some(event));
            }
            i = i + 1;
        }
        proof {
            first_after_is(channel.events@, self.cursor, i as int);
        }
        Ok(None)
    }

    /// What a command starts from: the latest sequence number, and the events that
    /// were not read yet.
    pub fn prepare_request(&mut self, channel: &OverviewEventSender, current_sequence: u64) -> (prepared:
        Result<(u64, Vec<ObservedOverviewEvent>), SessionError>)
        requires
            channel.wf(),
        ensures
            if old(self).read_through() < channel.dropped() {
                &&& fails_with(
                    prepared,
                    ErrorKind::InvalidData,
                    "Niri overview event subscription lagged"@,
                )
                &&& final(self).read_through() == channel.dropped()
            } else {
                let at = first_after(channel.retained(), old(self).read_through());
                &&& prepared is Ok
                &&& prepared->Ok_0.0 == if current_sequence < channel.latest() {
                    channel.latest()
                } else {
                    current_sequence
                }
                &&& prepared->Ok_0.1@.len() == channel.retained().len() - at
                &&& forall|i: int|
                    0 <= i < prepared->Ok_0.1@.len() ==> same_observed(
                        #[trigger] prepared->Ok_0.1@[i],
                        channel.retained()[at + i],
                    )
                &&& final(self).read_through() == channel.latest()
            },
    {
        if self.cursor < channel.dropped_through {
            self.cursor = channel.dropped_through;
            return invalid("Niri overview event subscription lagged");
        }
        let ghost at = first_after(channel.events@, self.cursor);
        proof {
            first_after_facts(channel.events@, self.cursor);
        }
        let mut retained: Vec<ObservedOverviewEvent> = Vec::new();
        for i in 0..channel.events.len()
            invariant
                channel.wf(),
                at == first_after(channel.events@, self.cursor),
                0 <= at <= channel.events@.len(),
                at < channel.events@.len() ==> number_of(channel.events@[at].event) > self.cursor,
                forall|j: int|
                    0 <= j < at ==> number_of((#[trigger] channel.events@[j]).event)
                        <= self.cursor,
                retained@.len() == if i < at {
                    0
                } else {
                    i - at
                },
                forall|j: int|
                    0 <= j < retained@.len() ==> same_observed(
                        #[trigger] retained@[j],
                        channel.events@[at + j],
                    ),
        {
            proof {
                if i > at {
                    assert(channel.retained()[at] == channel.events@[at]);
                    assert(channel.retained()[i as int] == channel.events@[i as int]);
                }
            }
            if channel.events[i].event.sequence() > self.cursor {
                retained.push(channel.events[i].copy());
            }
        }
        self.cursor = channel.latest_sequence;
        let baseline: u64 = if current_sequence < channel.latest_sequence {
            channel.latest_sequence
        } else {
            current_sequence
        };
        Ok((baseline, retained))
    }
}

// ---------------------------------------------------------------------------
// Commands
// ---------------------------------------------------------------------------

pub enum DaemonCommand {
    FocusWindow { window_id: u64 },
    CloseWindow { window_id: u64 },
    FocusWorkspace { workspace_id: u64 },
    /// A command that is none of the overview's.
    Unrelated,
}

/// The fixed arguments of a command.
pub open spec fn arguments(command: DaemonCommand) -> Option<Seq<Seq<char>>> {
    match command {
        DaemonCommand::FocusWindow { window_id } => if window_id > 0 {
            Some(
                seq!["msg"@, "action"@, "focus-window"@, "--id"@, decimal(window_id as nat)],
            )
        } else {
            None
        },
        DaemonCommand::CloseWindow { window_id } => if window_id > 0 {
            Some(
                seq!["msg"@, "action"@, "close-window"@, "--id"@, decimal(window_id as nat)],
            )
        } else {
            None
        },
        DaemonCommand::FocusWorkspace { workspace_id } => if workspace_id > 0 {
            Some(
                seq!["msg"@, "action"@, "focus-workspace"@, decimal(workspace_id as nat)],
            )
        } else {
            None
        },
        DaemonCommand::Unrelated => None,
    }
}

fn fixed_args(command: &DaemonCommand) -> (args: Result<Vec<String>, SessionError>)
    ensures
        match arguments(*command) {
            Some(expected) => args is Ok && texts(args->Ok_0@) == expected,
            None => fails_with(
                args,
                ErrorKind::InvalidInput,
                "command is not a typed Niri overview action"@,
            ),
        },
{
    let mut args: Vec<String> = Vec::new();
    args.push("msg".to_owned());
    args.push("action".to_owned());
    let number: u64 = match command {
        DaemonCommand::FocusWindow { window_id } => {
            args.push("focus-window".to_owned());
            args.push("--id".to_owned());
            *window_id
        },
        DaemonCommand::CloseWindow { window_id } => {
            args.push("close-window".to_owned());
            args.push("--id".to_owned());
            *window_id
        },
        DaemonCommand::FocusWorkspace { workspace_id } => {
            args.push("focus-workspace".to_owned());
            *workspace_id
        },
        DaemonCommand::Unrelated => 0,
    };
    if number == 0 {
        return invalid_input("command is not a typed Niri overview action");
    }
    args.push(decimal_text(number));
    assert(texts(args@) =~= arguments(*command)->Some_0);
    Ok(args)
}

/// Whether an event confirms a command.
pub open spec fn confirmed_by(
    command: DaemonCommand,
    event: OverviewEvent,
    expected_output: Option<Seq<char>>,
) -> bool {
    match (command, event) {
        (
            DaemonCommand::FocusWindow { window_id },
            OverviewEvent::FocusChanged { output_id, window_id: actual, .. },
        ) => actual == Some(window_id) && output_id@.len() > 0,
        (
            DaemonCommand::CloseWindow { window_id },
            OverviewEvent::WindowClosed { window_id: actual, .. },
        ) => window_id == actual,
        (
            DaemonCommand::FocusWorkspace { workspace_id },
            OverviewEvent::FocusChanged { output_id, workspace_id: actual, .. },
        ) => workspace_id == actual && (expected_output is None || expected_output->Some_0
            == output_id@),
        _ => false,
    }
}

fn confirms(command: &DaemonCommand, event: &OverviewEvent, expected_output: &Option<String>) -> (confirmed:
    bool)
    ensures
        confirmed == confirmed_by(
            *command,
            *event,
            match *expected_output {
                Some(output) => Some(output@),
                None => None,
            },
        ),
{
    match (command, event) {
        (
            DaemonCommand::FocusWindow { window_id },
            OverviewEvent::FocusChanged { output_id, window_id: actual, .. },
        ) => {
            let focused = match actual {
                Some(actual) => *actual == *window_id,
                None => false,
            };
            focused && crate::text::chars_of(output_id.as_str()).len() > 0
        },
        (
            DaemonCommand::CloseWindow { window_id },
            OverviewEvent::WindowClosed { window_id: actual, .. },
        ) => *window_id == *actual,
        (
            DaemonCommand::FocusWorkspace { workspace_id },
            OverviewEvent::FocusChanged { output_id, workspace_id: actual, .. },
        ) => {
            let expected = match expected_output {
                Some(output) => same_text(output.as_str(), output_id.as_str()),
                None => true,
            };
            *workspace_id == *actual && expected
        },
        _ => false,
    }
}

// ---------------------------------------------------------------------------
// Running
// ---------------------------------------------------------------------------

/// What became of a program, and when it was started.
pub struct StartedRun {
    /// The status of a program that ended, or why it did not.
    pub outcome: Result<i32, String>,
    pub started_at: u64,
}

/// Runs a program of the overview. Gives the time at which it was started.
pub trait OverviewRunner {
    /// Whether the runner can be used.
    spec fn ready(&self) -> bool;

    fn run(&self, program: &str, args: &Vec<String>, timeout: u64) -> (started: Result<
        u64,
        SessionError,
    >)
        requires
            self.ready(),
    ;
}

/// A runner that runs programs of the host, and only `niri`.
pub struct ProcessOverviewRunner<R>(pub R);

/// The number with its sign.
pub open spec fn signed_decimal(n: int) -> Seq<char> {
    if n < 0 {
        "-"@ + decimal((-n) as nat)
    } else {
        decimal(n as nat)
    }
}

/// What a run of the overview's program leads to.
pub open spec fn started_as(run: StartedRun, started: Result<u64, SessionError>) -> bool {
    match run.outcome {
        Ok(status) => if status == 0 {
            started == Ok::<u64, SessionError>(run.started_at)
        } else {
            fails_with(
                started,
                ErrorKind::Other,
                "Niri command exited with status "@ + signed_decimal(status as int),
            )
        },
        Err(reason) => fails_with(started, ErrorKind::Other, reason@),
    }
}

impl<R: Fn(&str, &Vec<String>, u64) -> StartedRun> OverviewRunner for ProcessOverviewRunner<R> {
    open spec fn ready(&self) -> bool {
        forall|program: &str, args: &Vec<String>, timeout: u64| #[trigger]
            call_requires(self.0, (program, args, timeout))
    }

    fn run(&self, program: &str, args: &Vec<String>, timeout: u64) -> (started: Result<
        u64,
        SessionError,
    >)
        ensures
            if program@ != "niri"@ {
                fails_with(
                    started,
                    ErrorKind::InvalidInput,
                    "overview runner only permits niri"@,
                )
            } else {
                exists|run: StartedRun|
                    #[trigger] call_ensures(self.0, (program, args, timeout), run) && started_as(
                        run,
                        started,
                    )
            },
    {
        if !same_text(program, "niri") {
            return invalid_input("overview runner only permits niri");
        }
        let run = (self.0)(program, args, timeout);
        match run.outcome {
            Err(reason) => {
                let error = SessionError { kind: ErrorKind::Other, message: reason };
                let started: Result<u64, SessionError> = Err(error);
                assert(started_as(run, started));
                started
            },
            Ok(status) => if status == 0 {
                let started: Result<u64, SessionError> = Ok(run.started_at);
                assert(started_as(run, started));
                started
            } else {
                let mut message = "Niri command exited with status ".to_owned();
                if status < 0 {
                    message.append("-");
                    message.append(decimal_text((-(status as i64)) as u64).as_str());
                } else {
                    message.append(decimal_text(status as u64).as_str());
                }
                assert(message@ =~= "Niri command exited with status "@ + signed_decimal(
                    status as int,
                ));
                let error = SessionError { kind: ErrorKind::Other, message };
                let started: Result<u64, SessionError> = Err(error);
                assert(started_as(run, started));
                started
            },
        }
    }
}

// ---------------------------------------------------------------------------
// The overview
// ---------------------------------------------------------------------------

/// A source of overview events.
pub trait OverviewEventSource {
    /// The next event, if one comes within so many milliseconds.
    fn next_event(&mut self, timeout: u64) -> (event: Result<
        Option<ObservedOverviewEvent>,
        SessionError,
    >);

    /// The next event, if there is one already.
    fn try_event(&mut self) -> (event: Result<Option<ObservedOverviewEvent>, SessionError>) {
        Ok(None)
    }

    /// What a command starts from: the latest sequence number, and the events that
    /// were not read yet.
    fn prepare_request(&mut self, current_sequence: u64) -> (prepared: Result<
        (u64, Vec<ObservedOverviewEvent>),
        SessionError,
    >) {
        Ok((current_sequence, Vec::new()))
    }
}

/// What is known of the session.
pub struct OverviewState {
    pub sequence: u64,
    pub focused_output: Option<Seq<char>>,
    pub online: bool,
}

/// What is known after an event; events that are not later change nothing.
pub open spec fn observed(state: OverviewState, event: OverviewEvent) -> OverviewState {
    if number_of(event) <= state.sequence {
        state
    } else {
        match event {
            OverviewEvent::FocusChanged { output_id, sequence, .. } => OverviewState {
                sequence,
                focused_output: Some(output_id@),
                online: true,
            },
            OverviewEvent::Offline { sequence } => OverviewState {
                sequence,
                online: false,
                ..state
            },
            OverviewEvent::WindowClosed { sequence, .. } => OverviewState {
                sequence,
                online: true,
                ..state
            },
        }
    }
}

/// What is known after events, one after the other.
pub open spec fn observed_all(state: OverviewState, events: Seq<ObservedOverviewEvent>) -> OverviewState
    decreases events.len(),
{
    if events.len() == 0 {
        state
    } else {
        observed(observed_all(state, events.drop_last()), events.last().event)
    }
}

/// Whether a command is started from what the source of events prepared: what was
/// not read yet is taken in first.
pub open spec fn begins(
    before: OverviewState,
    command: DaemonCommand,
    prepared: Result<(u64, Vec<ObservedOverviewEvent>), SessionError>,
    pending: Result<PendingCommand, SessionError>,
    after: OverviewState,
) -> bool {
    match prepared {
        Err(error) => {
            &&& pending == Err::<PendingCommand, SessionError>(error)
            &&& after == before
        },
        Ok(prepared) => {
            let state = observed_all(before, prepared.1@);
            &&& after == state
            &&& if !state.online {
                fails_with(pending, ErrorKind::NotConnected, "Niri event stream is offline"@)
            } else {
                match arguments(command) {
                    None => fails_with(
                        pending,
                        ErrorKind::InvalidInput,
                        "command is not a typed Niri overview action"@,
                    ),
                    Some(expected) => {
                        &&& pending is Ok
                        &&& pending->Ok_0.command == command
                        &&& texts(pending->Ok_0.args@) == expected
                        &&& pending->Ok_0.baseline == if prepared.0 < state.sequence {
                            state.sequence
                        } else {
                            prepared.0
                        }
                        &&& crate::desktop::wire::optional_text(pending->Ok_0.routed_output)
                            == state.focused_output
                    },
                }
            }
        },
    }
}

/// What follows from what came while a command is waited for.
pub open spec fn judged(
    before: OverviewState,
    pending: PendingCommand,
    started_at: u64,
    received: Option<ObservedOverviewEvent>,
    confirmation: Result<Option<OverviewEvent>, SessionError>,
    after: OverviewState,
) -> bool {
    match received {
        None => {
            &&& fails_with(
                confirmation,
                ErrorKind::TimedOut,
                "Niri did not confirm the command"@,
            )
            &&& after == before
        },
        Some(received) => if number_of(received.event) <= pending.baseline {
            &&& confirmation is Ok && confirmation->Ok_0 is None
            &&& after == before
        } else {
            &&& after == observed(before, received.event)
            &&& if received.event is Offline {
                fails_with(
                    confirmation,
                    ErrorKind::NotConnected,
                    "Niri went offline before confirmation"@,
                )
            } else if received.observed_at >= started_at && confirmed_by(
                pending.command,
                received.event,
                crate::desktop::wire::optional_text(pending.routed_output),
            ) {
                &&& confirmation is Ok
                &&& confirmation->Ok_0 is Some
                &&& same_event(confirmation->Ok_0->Some_0, received.event)
            } else {
                confirmation is Ok && confirmation->Ok_0 is None
            }
        },
    }
}

/// What follows from waiting for an event, which may itself fail.
pub open spec fn waited(
    before: OverviewState,
    pending: PendingCommand,
    started_at: u64,
    received: Result<Option<ObservedOverviewEvent>, SessionError>,
    confirmation: Result<Option<OverviewEvent>, SessionError>,
    after: OverviewState,
) -> bool {
    match received {
        Ok(received) => judged(before, pending, started_at, received, confirmation, after),
        Err(error) => {
            &&& confirmation == Err::<Option<OverviewEvent>, SessionError>(error)
            &&& after == before
        },
    }
}

/// A command succeeds only on an event that came after it was given and was seen
/// after its program was started.
pub proof fn confirmations_come_after_the_command(
    before: OverviewState,
    pending: PendingCommand,
    started_at: u64,
    received: Option<ObservedOverviewEvent>,
    confirmation: Result<Option<OverviewEvent>, SessionError>,
    after: OverviewState,
)
    requires
        judged(before, pending, started_at, received, confirmation, after),
        confirmation is Ok && confirmation->Ok_0 is Some,
    ensures
        received is Some,
        number_of(received->Some_0.event) > pending.baseline,
        received->Some_0.observed_at >= started_at,
        same_event(confirmation->Ok_0->Some_0, received->Some_0.event),
{
}

/// The sequence number never goes back, and an event that came before changes
/// nothing.
pub proof fn observation_is_monotone(state: OverviewState, event: OverviewEvent, again: OverviewEvent)
    ensures
        observed(state, event).sequence >= state.sequence,
        number_of(again) <= number_of(event) ==> observed(observed(state, event), again)
            == observed(state, event),
{
}

/// A command on its way: what it was started from.
pub struct PendingCommand {
    pub command: DaemonCommand,
    pub args: Vec<String>,
    pub baseline: u64,
    pub routed_output: Option<String>,
}

/// The overview of a session.
pub struct NiriOverview {
    timeout: u64,
    sequence: u64,
    focused_output: Option<String>,
    online: bool,
}

impl NiriOverview {
    pub closed spec fn state(&self) -> OverviewState {
        OverviewState {
            sequence: self.sequence,
            focused_output: match self.focused_output {
                Some(output) => Some(output@),
                None => None,
            },
            online: self.online,
        }
    }

    pub closed spec fn limit(&self) -> u64 {
        self.timeout
    }

    /// An overview whose commands have to be confirmed within a time.
    pub fn new(timeout: u64) -> (overview: NiriOverview)
        ensures
            overview.limit() == timeout,
            overview.state() == (OverviewState {
                sequence: 0,
                focused_output: None,
                online: true,
            }),
    {
        NiriOverview { timeout, sequence: 0, focused_output: None, online: true }
    }

    /// Takes in an event.
    pub fn observe(&mut self, event: OverviewEvent)
        ensures
            final(self).state() == observed(old(self).state(), event),
            final(self).limit() == old(self).limit(),
    {
        let sequence: u64 = event.sequence();
        if sequence <= self.sequence {
            return;
        }
        self.sequence = sequence;
        match event {
            OverviewEvent::FocusChanged { output_id, .. } => {
                self.online = true;
                self.focused_output = Some(output_id);
            },
            OverviewEvent::Offline { .. } => {
                self.online = false;
            },
            OverviewEvent::WindowClosed { .. } => {
                self.online = true;
            },
        }
    }

    /// Starts a command from what the source of events prepared. The command is
    /// refused while the session is offline.
    pub fn begin(
        &mut self,
        command: DaemonCommand,
        prepared: Result<(u64, Vec<ObservedOverviewEvent>), SessionError>,
    ) -> (pending: Result<PendingCommand, SessionError>)
        ensures
            final(self).limit() == old(self).limit(),
            begins(old(self).state(), command, prepared, pending, final(self).state()),
    {
        let (baseline, retained) = match prepared {
            Ok(prepared) => prepared,
            Err(error) => return Err(error),
        };
        let ghost all = retained@;
        assert(all.take(0) =~= Seq::empty());
        for observed_event in it: retained
            invariant
                it.seq() == all,
                self.limit() == old(self).limit(),
                self.state() == observed_all(old(self).state(), all.take(it.index() as int)),
        {
            assert(all.take(it.index() + 1).drop_last() =~= all.take(it.index() as int));
            self.observe(observed_event.event);
        }
        assert(all.take(all.len() as int) =~= all);
        if !self.online {
            return Err(
                SessionError::new(ErrorKind::NotConnected, "Niri event stream is offline"),
            );
        }
        let args = match fixed_args(&command) {
            Ok(args) => args,
            Err(error) => return Err(error),
        };
        let baseline: u64 = if baseline < self.sequence {
            self.sequence
        } else {
            baseline
        };
        let routed_output = match &self.focused_output {
            Some(output) => Some(output.clone()),
            None => None,
        };
        Ok(PendingCommand { command, args, baseline, routed_output })
    }

    /// Whether a command may still be waited for.
    pub fn check_time(&self, cancelled: bool, time_left: bool) -> (checked: Result<
        (),
        SessionError,
    >)
        ensures
            if cancelled {
                fails_with(checked, ErrorKind::Interrupted, "Niri confirmation cancelled"@)
            } else if !time_left {
                fails_with(checked, ErrorKind::TimedOut, "Niri did not confirm the command"@)
            } else {
                checked is Ok
            },
    {
        if cancelled {
            return Err(SessionError::new(ErrorKind::Interrupted, "Niri confirmation cancelled"));
        }
        if !time_left {
            return Err(
                SessionError::new(ErrorKind::TimedOut, "Niri did not confirm the command"),
            );
        }
        Ok(())
    }

    /// Asks a source of events for what a command starts from, and starts it.
    pub fn prepare<E: OverviewEventSource>(&mut self, events: &mut E, command: DaemonCommand) -> (pending:
        Result<PendingCommand, SessionError>)
        ensures
            final(self).limit() == old(self).limit(),
            exists|prepared: Result<(u64, Vec<ObservedOverviewEvent>), SessionError>| #[trigger]
                begins(old(self).state(), command, prepared, pending, final(self).state()),
    {
        let prepared = events.prepare_request(self.sequence);
        let ghost given = prepared;
        let ghost before = self.state();
        let pending = self.begin(command, prepared);
        assert(begins(before, command, given, pending, self.state()));
        pending
    }

    /// Waits once for an event while a command is waited for: gives the event that
    /// confirms it, or nothing while more has to be waited for.
    pub fn await_confirmation<E: OverviewEventSource>(
        &mut self,
        events: &mut E,
        pending: &PendingCommand,
        started_at: u64,
        cancelled: bool,
        left: u64,
    ) -> (confirmation: Result<Option<OverviewEvent>, SessionError>)
        ensures
            final(self).limit() == old(self).limit(),
            if cancelled {
                &&& fails_with(
                    confirmation,
                    ErrorKind::Interrupted,
                    "Niri confirmation cancelled"@,
                )
                &&& final(self).state() == old(self).state()
            } else if left == 0 {
                &&& fails_with(
                    confirmation,
                    ErrorKind::TimedOut,
                    "Niri did not confirm the command"@,
                )
                &&& final(self).state() == old(self).state()
            } else {
                exists|received: Result<Option<ObservedOverviewEvent>, SessionError>| #[trigger]
                    waited(
                        old(self).state(),
                        *pending,
                        started_at,
                        received,
                        confirmation,
                        final(self).state(),
                    )
            },
    {
        if let Err(error) = self.check_time(cancelled, left > 0) {
            return Err(error);
        }
        let received = events.next_event(left);
        let ghost came = received;
        let ghost before = self.state();
        let confirmation = match received {
            Ok(received) => self.judge(pending, started_at, received),
            Err(error) => Err(error),
        };
        assert(waited(before, *pending, started_at, came, confirmation, self.state()));
        confirmation
    }

    /// Takes in what came while a command is waited for. Gives the event that
    /// confirms it, or nothing while more has to be waited for.
    pub fn judge(
        &mut self,
        pending: &PendingCommand,
        started_at: u64,
        received: Option<ObservedOverviewEvent>,
    ) -> (confirmation: Result<Option<OverviewEvent>, SessionError>)
        ensures
            final(self).limit() == old(self).limit(),
            judged(
                old(self).state(),
                *pending,
                started_at,
                received,
                confirmation,
                final(self).state(),
            ),
    {
        let received = match received {
            Some(received) => received,
            None => return Err(
                SessionError::new(ErrorKind::TimedOut, "Niri did not confirm the command"),
            ),
        };
        if received.event.sequence() <= pending.baseline {
            return Ok(None);
        }
        let offline = matches!(received.event, OverviewEvent::Offline { .. });
        if offline {
            self.observe(received.event);
            return Err(
                SessionError::new(
                    ErrorKind::NotConnected,
                    "Niri went offline before confirmation",
                ),
            );
        }
        let confirmed = received.observed_at >= started_at && confirms(
            &pending.command,
            &received.event,
            &pending.routed_output,
        );
        if confirmed {
            let event = received.event.copy();
            self.observe(received.event);
            return Ok(Some(event));
        }
        self.observe(received.event);
        Ok(None)
    }
}

} // verus!

//! Carrying out a command exactly once.
//!
//! A command is looked up, checked against the current generation, recorded,
//! carried out, published and completed, in this order. The steps are taken by
//! the caller; this module says which comes next.

use vstd::prelude::*;

use crate::error::{fails_with, ErrorKind, SessionError};
use crate::text::same_text;

use super::domain::{CapabilityAvailability, DesktopDomainState, ProducerError};
use super::wire::{
    failed_result, failure, optional_text, DesktopResult, DesktopResultStatus, ResultView,
};

verus! {

/// What carrying out a command led to.
pub enum DesktopMutationOutcome {
    Confirmed(Vec<DesktopDomainState>),
    Acknowledged,
    TerminalFailure { readbacks: Vec<DesktopDomainState>, diagnostic_code: String },
}

/// The codes of failed commands that are told to the outside.
pub open spec fn public_code(code: Seq<char>) -> Seq<char> {
    if code == "mutation.readback-missing"@ || code == "mutation.readback-terminal"@ || code
        == "brightness.output-target-unmapped"@ || code == "capture.portal-unavailable"@ {
        code
    } else {
        "mutation.terminal-failure"@
    }
}

pub fn public_mutation_diagnostic(code: &str) -> (text: &'static str)
    ensures
        text@ == public_code(code@),
{
    if same_text(code, "mutation.readback-missing") {
        "mutation.readback-missing"
    } else if same_text(code, "mutation.readback-terminal") {
        "mutation.readback-terminal"
    } else if same_text(code, "brightness.output-target-unmapped") {
        "brightness.output-target-unmapped"
    } else if same_text(code, "capture.portal-unavailable") {
        "capture.portal-unavailable"
    } else {
        "mutation.terminal-failure"
    }
}

/// Whether some state has no value.
pub open spec fn has_terminal(states: Seq<DesktopDomainState>) -> bool {
    exists|i: int|
        0 <= i < states.len() && (#[trigger] states[i]).state()
            != CapabilityAvailability::Available
}

fn any_terminal(states: &Vec<DesktopDomainState>) -> (found: bool)
    ensures
        found == has_terminal(states@),
{
    for i in 0..states.len()
        invariant
            forall|j: int|
                0 <= j < i ==> (#[trigger] states@[j]).state()
                    == CapabilityAvailability::Available,
    {
        if !matches!(states[i].status(), CapabilityAvailability::Available) {
            return true;
        }
    }
    false
}

/// The states that a command led to, to be published in order.
pub open spec fn readbacks_of(execution: Result<DesktopMutationOutcome, ProducerError>) -> Seq<
    DesktopDomainState,
> {
    match execution {
        Ok(DesktopMutationOutcome::Confirmed(readbacks)) => readbacks@,
        Ok(DesktopMutationOutcome::TerminalFailure { readbacks, .. }) => readbacks@,
        _ => Seq::empty(),
    }
}

/// Why a command failed, if it did.
pub open spec fn failure_of(
    execution: Result<DesktopMutationOutcome, ProducerError>,
) -> Option<Seq<char>> {
    match execution {
        Ok(DesktopMutationOutcome::Confirmed(readbacks)) => if readbacks@.len() == 0 {
            Some("mutation.readback-missing"@)
        } else if has_terminal(readbacks@) {
            Some("mutation.readback-terminal"@)
        } else {
            None
        },
        Ok(DesktopMutationOutcome::Acknowledged) => None,
        Ok(DesktopMutationOutcome::TerminalFailure { diagnostic_code, .. }) => Some(
            public_code(diagnostic_code@),
        ),
        Err(_) => Some("mutation.backend-failed"@),
    }
}

/// What is left to publish of a command, and how it ended.
pub struct Conclusion {
    pub readbacks: Vec<DesktopDomainState>,
    pub status: DesktopResultStatus,
    pub diagnostic: Option<String>,
}

/// Whether a conclusion says how a command ended.
pub open spec fn concludes(conclusion: Conclusion, failure: Option<Seq<char>>) -> bool {
    &&& conclusion.status == if failure is Some {
        DesktopResultStatus::Failed
    } else {
        DesktopResultStatus::Succeeded
    }
    &&& optional_text(conclusion.diagnostic) == failure
}

/// Concludes from what carrying out a command led to.
pub fn conclude(execution: Result<DesktopMutationOutcome, ProducerError>) -> (conclusion:
    Conclusion)
    ensures
        conclusion.readbacks@ == readbacks_of(execution),
        concludes(conclusion, failure_of(execution)),
        execution matches Ok(DesktopMutationOutcome::Confirmed(states)) ==> conclusion.readbacks@
            == states@,
        execution matches Ok(DesktopMutationOutcome::TerminalFailure { readbacks, .. })
            ==> conclusion.readbacks@ == readbacks@,
{
    match execution {
        Ok(DesktopMutationOutcome::Confirmed(readbacks)) => {
            if readbacks.len() == 0 {
                Conclusion {
                    readbacks,
                    status: DesktopResultStatus::Failed,
                    diagnostic: Some("mutation.readback-missing".to_owned()),
                }
            } else if any_terminal(&readbacks) {
                Conclusion {
                    readbacks,
                    status: DesktopResultStatus::Failed,
                    diagnostic: Some("mutation.readback-terminal".to_owned()),
                }
            } else {
                Conclusion {
                    readbacks,
                    status: DesktopResultStatus::Succeeded,
                    diagnostic: None,
                }
            }
        },
        Ok(DesktopMutationOutcome::Acknowledged) => Conclusion {
            readbacks: Vec::new(),
            status: DesktopResultStatus::Succeeded,
            diagnostic: None,
        },
        Ok(DesktopMutationOutcome::TerminalFailure { readbacks, diagnostic_code }) => Conclusion {
            readbacks,
            status: DesktopResultStatus::Failed,
            diagnostic: Some(public_mutation_diagnostic(diagnostic_code.as_str()).to_owned()),
        },
        Err(_) => Conclusion {
            readbacks: Vec::new(),
            status: DesktopResultStatus::Failed,
            diagnostic: Some("mutation.backend-failed".to_owned()),
        },
    }
}

/// How far a command has come.
pub enum ControlPhase {
    /// What is recorded of the command is being looked up.
    LookingUp,
    /// The generation of the command is being compared.
    Comparing,
    /// The refusal of a stale command is being recorded.
    Refusing(DesktopResult),
    /// The command is being recorded.
    Beginning,
    /// The command is being carried out.
    Executing,
    /// A state that the command led to is being published; more may follow.
    Publishing(Conclusion),
    /// The outcome is being published.
    Reporting,
    /// The outcome is being recorded.
    Completing(DesktopResult),
    /// The command is answered.
    Answered,
}

/// What became of the step that was taken last.
pub enum ControlEvent {
    Found(Option<Option<DesktopResult>>),
    Generation { matches: bool, current: u64 },
    Recorded(Result<(), SessionError>),
    Executed(Result<DesktopMutationOutcome, ProducerError>),
    Published(Result<(), SessionError>),
    Reported(Result<DesktopResult, SessionError>),
}

/// The step to take next.
pub enum ControlAction {
    Compare,
    /// Record the outcome of the command.
    Complete(DesktopResult),
    /// Record the command before it is carried out.
    Begin,
    Execute,
    Publish(DesktopDomainState),
    /// Publish the outcome of the command.
    Report { status: DesktopResultStatus, diagnostic: Option<String> },
    Answer(Result<DesktopResult, SessionError>),
}

/// Whether a step can have led to an event.
pub open spec fn expects(phase: ControlPhase, event: ControlEvent) -> bool {
    match phase {
        ControlPhase::LookingUp => event is Found,
        ControlPhase::Comparing => event is Generation,
        ControlPhase::Refusing(_) => event is Recorded,
        ControlPhase::Beginning => event is Recorded,
        ControlPhase::Executing => event is Executed,
        ControlPhase::Publishing(_) => event is Published,
        ControlPhase::Reporting => event is Reported,
        ControlPhase::Completing(_) => event is Recorded,
        ControlPhase::Answered => false,
    }
}

pub open spec fn answers_with(action: ControlAction, result: ResultView) -> bool {
    action is Answer && action->Answer_0 is Ok && action->Answer_0->Ok_0@ == result
}

pub open spec fn refuses_with(action: ControlAction, error: SessionError) -> bool {
    action == ControlAction::Answer(Err(error))
}

/// Whether the next step publishes the first of the states that are left, or,
/// once none is, the outcome.
pub open spec fn publishes(
    readbacks: Seq<DesktopDomainState>,
    status: DesktopResultStatus,
    diagnostic: Option<Seq<char>>,
    next: ControlPhase,
    action: ControlAction,
) -> bool {
    if readbacks.len() == 0 {
        &&& next is Reporting
        &&& action is Report
        &&& action->Report_status == status
        &&& optional_text(action->Report_diagnostic) == diagnostic
    } else {
        &&& action == ControlAction::Publish(readbacks[0])
        &&& next is Publishing
        &&& next->Publishing_0.readbacks@ == readbacks.skip(1)
        &&& next->Publishing_0.status == status
        &&& optional_text(next->Publishing_0.diagnostic) == diagnostic
    }
}

/// Whether a step follows from how far the command has come and what became of
/// the last step.
pub open spec fn follows(
    schema_version: u32,
    request_id: Seq<char>,
    phase: ControlPhase,
    event: ControlEvent,
    next: ControlPhase,
    action: ControlAction,
) -> bool {
    match (phase, event) {
        (ControlPhase::LookingUp, ControlEvent::Found(found)) => match found {
            Some(Some(result)) => next is Answered && answers_with(action, result@),
            Some(None) => {
                &&& next is Answered
                &&& action is Answer
                &&& fails_with(
                    action->Answer_0,
                    ErrorKind::AlreadyExists,
                    "desktop request outcome is indeterminate after interruption"@,
                )
            },
            None => next is Comparing && action is Compare,
        },
        (ControlPhase::Comparing, ControlEvent::Generation { matches, current }) => if matches {
            next is Beginning && action is Begin
        } else {
            let refusal = failure(
                schema_version,
                request_id,
                current,
                "request.generation-stale"@,
            );
            &&& next is Refusing
            &&& next->Refusing_0@ == refusal
            &&& action is Complete
            &&& action->Complete_0@ == refusal
        },
        (ControlPhase::Refusing(result), ControlEvent::Recorded(done)) => {
            &&& next is Answered
            &&& match done {
                Ok(()) => answers_with(action, result@),
                Err(error) => refuses_with(action, error),
            }
        },
        (ControlPhase::Beginning, ControlEvent::Recorded(done)) => match done {
            Ok(()) => next is Executing && action is Execute,
            Err(error) => next is Answered && refuses_with(action, error),
        },
        (ControlPhase::Executing, ControlEvent::Executed(execution)) => publishes(
            readbacks_of(execution),
            if failure_of(execution) is Some {
                DesktopResultStatus::Failed
            } else {
                DesktopResultStatus::Succeeded
            },
            failure_of(execution),
            next,
            action,
        ),
        (ControlPhase::Publishing(rest), ControlEvent::Published(done)) => match done {
            Ok(()) => publishes(
                rest.readbacks@,
                rest.status,
                optional_text(rest.diagnostic),
                next,
                action,
            ),
            Err(error) => next is Answered && refuses_with(action, error),
        },
        (ControlPhase::Reporting, ControlEvent::Reported(reported)) => match reported {
            Ok(result) => {
                &&& next is Completing
                &&& next->Completing_0@ == result@
                &&& action is Complete
                &&& action->Complete_0@ == result@
            },
            Err(error) => next is Answered && refuses_with(action, error),
        },
        (ControlPhase::Completing(result), ControlEvent::Recorded(done)) => {
            &&& next is Answered
            &&& match done {
                Ok(()) => answers_with(action, result@),
                Err(error) => refuses_with(action, error),
            }
        },
        _ => false,
    }
}

/// How much is left to do, at most.
pub open spec fn steps_left(phase: ControlPhase) -> nat {
    match phase {
        ControlPhase::LookingUp => 6,
        ControlPhase::Comparing => 5,
        ControlPhase::Refusing(_) => 1,
        ControlPhase::Beginning => 4,
        ControlPhase::Executing => 3,
        ControlPhase::Publishing(_) => 3,
        ControlPhase::Reporting => 2,
        ControlPhase::Completing(_) => 1,
        ControlPhase::Answered => 0,
    }
}

/// Whether a command may still be carried out.
pub open spec fn before_execution(phase: ControlPhase) -> bool {
    phase is LookingUp || phase is Comparing || phase is Beginning
}

/// A command is carried out at most once: only when it has just been recorded,
/// and no step leads back to before that.
pub proof fn a_command_is_executed_at_most_once(
    schema_version: u32,
    request_id: Seq<char>,
    phase: ControlPhase,
    event: ControlEvent,
    next: ControlPhase,
    action: ControlAction,
)
    requires
        follows(schema_version, request_id, phase, event, next, action),
    ensures
        action is Execute ==> phase is Beginning && event is Recorded && event->Recorded_0 is Ok,
        action is Execute ==> !before_execution(next),
        !before_execution(phase) ==> !before_execution(next),
{
}

/// A command that is recorded already is answered from the record: it is not
/// carried out, nor is anything published.
pub proof fn a_recorded_command_is_not_executed(
    schema_version: u32,
    request_id: Seq<char>,
    recorded: Option<DesktopResult>,
    next: ControlPhase,
    action: ControlAction,
)
    requires
        follows(
            schema_version,
            request_id,
            ControlPhase::LookingUp,
            ControlEvent::Found(Some(recorded)),
            next,
            action,
        ),
    ensures
        next is Answered,
        action is Answer,
        recorded is Some ==> answers_with(action, recorded->Some_0@),
        recorded is None ==> action->Answer_0 is Err,
{
}

/// A command that was made against another generation than the current one is
/// refused: it is not carried out, neither then nor later.
pub proof fn a_stale_command_is_not_executed(
    schema_version: u32,
    request_id: Seq<char>,
    current: u64,
    next: ControlPhase,
    action: ControlAction,
)
    requires
        follows(
            schema_version,
            request_id,
            ControlPhase::Comparing,
            ControlEvent::Generation { matches: false, current },
            next,
            action,
        ),
    ensures
        !(action is Execute),
        !before_execution(next),
        action is Complete,
        action->Complete_0@.status == DesktopResultStatus::Failed,
        action->Complete_0@.generation == current,
        action->Complete_0@.diagnostic == Some("request.generation-stale"@),
{
}

/// No outcome is told to a client before it is on record: an answer with a result
/// follows only on the report that the result was recorded, or repeats what was
/// found on record.
pub proof fn an_outcome_is_on_record_before_it_is_told(
    schema_version: u32,
    request_id: Seq<char>,
    phase: ControlPhase,
    event: ControlEvent,
    next: ControlPhase,
    action: ControlAction,
)
    requires
        follows(schema_version, request_id, phase, event, next, action),
        action is Answer && action->Answer_0 is Ok,
    ensures
        event is Found || event is Recorded && event->Recorded_0 is Ok,
        event is Found ==> event->Found_0 is Some && event->Found_0->Some_0 is Some
            && action->Answer_0->Ok_0@ == event->Found_0->Some_0->Some_0@,
        event is Recorded ==> match phase {
            ControlPhase::Refusing(result) => action->Answer_0->Ok_0@ == result@,
            ControlPhase::Completing(result) => action->Answer_0->Ok_0@ == result@,
            _ => false,
        },
{
}

/// A command ends: every step leaves less to do, or one state less to publish.
pub proof fn a_command_is_answered(
    schema_version: u32,
    request_id: Seq<char>,
    phase: ControlPhase,
    event: ControlEvent,
    next: ControlPhase,
    action: ControlAction,
)
    requires
        follows(schema_version, request_id, phase, event, next, action),
    ensures
        steps_left(next) < steps_left(phase) || {
            &&& next is Publishing
            &&& phase is Executing || phase is Publishing && next->Publishing_0.readbacks@.len()
                < phase->Publishing_0.readbacks@.len()
        },
        next is Answered <==> action is Answer,
{
}

/// A command on its way.
pub struct ControlRun {
    schema_version: u32,
    request_id: String,
    phase: ControlPhase,
}

impl ControlRun {
    pub closed spec fn at(&self) -> ControlPhase {
        self.phase
    }

    pub closed spec fn id(&self) -> Seq<char> {
        self.request_id@
    }

    pub closed spec fn version(&self) -> u32 {
        self.schema_version
    }

    /// Starts with looking up what is recorded of a command.
    pub fn start(schema_version: u32, request_id: String) -> (run: ControlRun)
        ensures
            run.at() is LookingUp,
            run.id() == request_id@,
            run.version() == schema_version,
    {
        ControlRun { schema_version, request_id, phase: ControlPhase::LookingUp }
    }

    /// Whether an event can come now.
    pub fn awaits(&self, event: &ControlEvent) -> (fits: bool)
        ensures
            fits == expects(self.at(), *event),
    {
        match (&self.phase, event) {
            (ControlPhase::LookingUp, ControlEvent::Found(_)) => true,
            (ControlPhase::Comparing, ControlEvent::Generation { .. }) => true,
            (ControlPhase::Refusing(_), ControlEvent::Recorded(_)) => true,
            (ControlPhase::Beginning, ControlEvent::Recorded(_)) => true,
            (ControlPhase::Executing, ControlEvent::Executed(_)) => true,
            (ControlPhase::Publishing(_), ControlEvent::Published(_)) => true,
            (ControlPhase::Reporting, ControlEvent::Reported(_)) => true,
            (ControlPhase::Completing(_), ControlEvent::Recorded(_)) => true,
            _ => false,
        }
    }

    /// Takes in what became of the last step and says which comes next.
    pub fn advance(self, event: ControlEvent) -> (step: (ControlRun, ControlAction))
        requires
            expects(self.at(), event),
        ensures
            step.0.id() == self.id(),
            step.0.version() == self.version(),
            follows(self.version(), self.id(), self.at(), event, step.0.at(), step.1),
    {
        let schema_version: u32 = self.schema_version;
        let request_id = self.request_id;
        let (phase, action) = match (self.phase, event) {
            (ControlPhase::LookingUp, ControlEvent::Found(found)) => match found {
                Some(Some(result)) => (ControlPhase::Answered, ControlAction::Answer(Ok(result))),
                Some(None) => (
                    ControlPhase::Answered,
                    ControlAction::Answer(
                        Err(
                            SessionError::new(
                                ErrorKind::AlreadyExists,
                                "desktop request outcome is indeterminate after interruption",
                            ),
                        ),
                    ),
                ),
                None => (ControlPhase::Comparing, ControlAction::Compare),
            },
            (ControlPhase::Comparing, ControlEvent::Generation { matches, current }) => {
                if matches {
                    (ControlPhase::Beginning, ControlAction::Begin)
                } else {
                    let refusal = failed_result(
                        schema_version,
                        request_id.as_str(),
                        current,
                        "request.generation-stale",
                    );
                    let copy = refusal.copy();
                    (ControlPhase::Refusing(copy), ControlAction::Complete(refusal))
                }
            },
            (ControlPhase::Refusing(result), ControlEvent::Recorded(done)) => answered(
                result,
                done,
            ),
            (ControlPhase::Beginning, ControlEvent::Recorded(done)) => match done {
                Ok(()) => (ControlPhase::Executing, ControlAction::Execute),
                Err(error) => (ControlPhase::Answered, ControlAction::Answer(Err(error))),
            },
            (ControlPhase::Executing, ControlEvent::Executed(execution)) => publish_next(
                conclude(execution),
            ),
            (ControlPhase::Publishing(rest), ControlEvent::Published(done)) => match done {
                Ok(()) => publish_next(rest),
                Err(error) => (ControlPhase::Answered, ControlAction::Answer(Err(error))),
            },
            (ControlPhase::Reporting, ControlEvent::Reported(reported)) => match reported {
                Ok(result) => {
                    let copy = result.copy();
                    (ControlPhase::Completing(copy), ControlAction::Complete(result))
                },
                Err(error) => (ControlPhase::Answered, ControlAction::Answer(Err(error))),
            },
            (ControlPhase::Completing(result), ControlEvent::Recorded(done)) => answered(
                result,
                done,
            ),
            _ => vstd::pervasive::unreached(),
        };
        (ControlRun { schema_version, request_id, phase }, action)
    }
}

fn answered(result: DesktopResult, done: Result<(), SessionError>) -> (step: (
    ControlPhase,
    ControlAction,
))
    ensures
        step.0 is Answered,
        match done {
            Ok(()) => answers_with(step.1, result@),
            Err(error) => refuses_with(step.1, error),
        },
{
    match done {
        Ok(()) => (ControlPhase::Answered, ControlAction::Answer(Ok(result))),
        Err(error) => (ControlPhase::Answered, ControlAction::Answer(Err(error))),
    }
}

fn publish_next(conclusion: Conclusion) -> (step: (ControlPhase, ControlAction))
    ensures
        publishes(
            conclusion.readbacks@,
            conclusion.status,
            optional_text(conclusion.diagnostic),
            step.0,
            step.1,
        ),
{
    let mut rest = conclusion;
    if rest.readbacks.len() == 0 {
        (
            ControlPhase::Reporting,
            ControlAction::Report { status: rest.status, diagnostic: rest.diagnostic },
        )
    } else {
        let first = rest.readbacks.remove(0);
        assert(rest.readbacks@ =~= conclusion.readbacks@.skip(1));
        (ControlPhase::Publishing(rest), ControlAction::Publish(first))
    }
}

/// A record cannot be made without room for it.
pub fn check_capacity(maximum_records: usize) -> (checked: Result<(), SessionError>)
    ensures
        if maximum_records == 0 {
            fails_with(
                checked,
                ErrorKind::InvalidInput,
                "desktop dedupe capacity must be positive"@,
            )
        } else {
            checked is Ok
        },
{
    if maximum_records == 0 {
        return Err(
            SessionError::new(
                ErrorKind::InvalidInput,
                "desktop dedupe capacity must be positive",
            ),
        );
    }
    Ok(())
}

/// Whether a command went on from its execution, each step following on the one
/// before, with every publication done.
pub open spec fn went_on(
    schema_version: u32,
    request_id: Seq<char>,
    execution: Result<DesktopMutationOutcome, ProducerError>,
    phases: Seq<ControlPhase>,
    events: Seq<ControlEvent>,
    actions: Seq<ControlAction>,
) -> bool {
    &&& phases.len() == actions.len() + 1
    &&& events.len() == actions.len()
    &&& actions.len() > 0
    &&& phases[0] is Executing
    &&& events[0] == ControlEvent::Executed(execution)
    &&& forall|i: int|
        1 <= i < events.len() ==> (#[trigger] events[i]) is Published && events[i]->Published_0 is Ok
    &&& forall|i: int|
        0 <= i < actions.len() ==> follows(
            schema_version,
            request_id,
            phases[i],
            events[i],
            phases[i + 1],
            #[trigger] actions[i],
        )
}

proof fn states_are_left(
    schema_version: u32,
    request_id: Seq<char>,
    execution: Result<DesktopMutationOutcome, ProducerError>,
    phases: Seq<ControlPhase>,
    events: Seq<ControlEvent>,
    actions: Seq<ControlAction>,
    at: int,
)
    requires
        went_on(schema_version, request_id, execution, phases, events, actions),
        0 <= at < actions.len(),
        at <= readbacks_of(execution).len(),
    ensures
        publishes(
            readbacks_of(execution).skip(at),
            if failure_of(execution) is Some {
                DesktopResultStatus::Failed
            } else {
                DesktopResultStatus::Succeeded
            },
            failure_of(execution),
            phases[at + 1],
            actions[at],
        ),
    decreases at,
{
    let all = readbacks_of(execution);
    assert(follows(schema_version, request_id, phases[at], events[at], phases[at + 1], actions[at]));
    if at == 0 {
        assert(all.skip(0) =~= all);
    } else {
        states_are_left(
            schema_version,
            request_id,
            execution,
            phases,
            events,
            actions,
            at - 1,
        );
        assert(all.skip(at - 1).skip(1) =~= all.skip(at));
        assert(events[at] is Published);
    }
}

/// Every state that a command was confirmed by is published, once and in order, and
/// the outcome is reported after the last of them. It is a success exactly where there
/// is such a state and each of them has a value.
pub proof fn confirmed_states_are_published_before_the_report(
    schema_version: u32,
    request_id: Seq<char>,
    states: Vec<DesktopDomainState>,
    phases: Seq<ControlPhase>,
    events: Seq<ControlEvent>,
    actions: Seq<ControlAction>,
)
    requires
        went_on(
            schema_version,
            request_id,
            Ok(DesktopMutationOutcome::Confirmed(states)),
            phases,
            events,
            actions,
        ),
        actions.len() == states@.len() + 1,
    ensures
        forall|i: int|
            0 <= i < states@.len() ==> #[trigger] actions[i] == ControlAction::Publish(states@[i]),
        actions[states@.len() as int] is Report,
        actions[states@.len() as int]->Report_status == DesktopResultStatus::Succeeded
            <==> states@.len() > 0 && forall|i: int|
            0 <= i < states@.len() ==> (#[trigger] states@[i]).state()
                == CapabilityAvailability::Available,
        states@.len() == 0 ==> optional_text(actions[0]->Report_diagnostic) == Some(
            "mutation.readback-missing"@,
        ),
{
    let execution = Ok::<DesktopMutationOutcome, ProducerError>(
        DesktopMutationOutcome::Confirmed(states),
    );
    assert forall|i: int| 0 <= i < states@.len() implies #[trigger] actions[i]
        == ControlAction::Publish(states@[i]) by {
        states_are_left(schema_version, request_id, execution, phases, events, actions, i);
        assert(states@.skip(i)[0] == states@[i]);
    }
    let last = states@.len() as int;
    states_are_left(schema_version, request_id, execution, phases, events, actions, last);
    assert(states@.skip(last).len() == 0);
}

/// The states that a command failed with are published all the same, once and in
/// order, before the failure is reported.
pub proof fn states_of_a_failure_are_published_before_the_report(
    schema_version: u32,
    request_id: Seq<char>,
    states: Vec<DesktopDomainState>,
    code: String,
    phases: Seq<ControlPhase>,
    events: Seq<ControlEvent>,
    actions: Seq<ControlAction>,
)
    requires
        went_on(
            schema_version,
            request_id,
            Ok(
                DesktopMutationOutcome::TerminalFailure { readbacks: states, diagnostic_code: code },
            ),
            phases,
            events,
            actions,
        ),
        actions.len() == states@.len() + 1,
    ensures
        forall|i: int|
            0 <= i < states@.len() ==> #[trigger] actions[i] == ControlAction::Publish(states@[i]),
        actions[states@.len() as int] is Report,
        actions[states@.len() as int]->Report_status == DesktopResultStatus::Failed,
        optional_text(actions[states@.len() as int]->Report_diagnostic) is Some,
{
    let execution = Ok::<DesktopMutationOutcome, ProducerError>(
        DesktopMutationOutcome::TerminalFailure { readbacks: states, diagnostic_code: code },
    );
    assert forall|i: int| 0 <= i < states@.len() implies #[trigger] actions[i]
        == ControlAction::Publish(states@[i]) by {
        states_are_left(schema_version, request_id, execution, phases, events, actions, i);
        assert(states@.skip(i)[0] == states@[i]);
    }
    let last = states@.len() as int;
    states_are_left(schema_version, request_id, execution, phases, events, actions, last);
    assert(states@.skip(last).len() == 0);
}

/// A command that was acknowledged, or that failed without a state, is reported at
/// once: the first as a success, the other as a failure of the backend whose own words
/// are not told.
pub proof fn outcomes_without_states_are_reported_at_once(
    schema_version: u32,
    request_id: Seq<char>,
    error: ProducerError,
    next: ControlPhase,
    action: ControlAction,
)
    ensures
        follows(
            schema_version,
            request_id,
            ControlPhase::Executing,
            ControlEvent::Executed(Ok(DesktopMutationOutcome::Acknowledged)),
            next,
            action,
        ) ==> action is Report && action->Report_status == DesktopResultStatus::Succeeded
            && action->Report_diagnostic is None,
        follows(
            schema_version,
            request_id,
            ControlPhase::Executing,
            ControlEvent::Executed(Err(error)),
            next,
            action,
        ) ==> action is Report && action->Report_status == DesktopResultStatus::Failed
            && optional_text(action->Report_diagnostic) == Some("mutation.backend-failed"@),
{
}

/// A code that clients know is told as it is, and of any other nothing is told: the
/// same words stand for all of them.
pub proof fn only_known_codes_are_told(code: Seq<char>, other: Seq<char>)
    ensures
        public_code(code) == code || public_code(code) == "mutation.terminal-failure"@,
        public_code("mutation.readback-missing"@) == "mutation.readback-missing"@,
        public_code("mutation.readback-terminal"@) == "mutation.readback-terminal"@,
        public_code("brightness.output-target-unmapped"@)
            == "brightness.output-target-unmapped"@,
        public_code("capture.portal-unavailable"@) == "capture.portal-unavailable"@,
        public_code(code) != code && public_code(other) != other ==> public_code(code)
            == public_code(other),
        public_code(code) == code ==> code == "mutation.readback-missing"@ || code
            == "mutation.readback-terminal"@ || code == "brightness.output-target-unmapped"@
            || code == "capture.portal-unavailable"@ || code == "mutation.terminal-failure"@,
{
}

/// The way of a command that is new and made against the current generation: it is
/// compared, recorded and carried out, in this order, and its answer is the result
/// that was reported and then recorded.
pub proof fn the_way_of_a_command(
    schema_version: u32,
    request_id: Seq<char>,
    current: u64,
    reported: DesktopResult,
    done: Result<(), SessionError>,
    error: SessionError,
    phase: ControlPhase,
    next: ControlPhase,
    action: ControlAction,
)
    ensures
        follows(schema_version, request_id, ControlPhase::LookingUp, ControlEvent::Found(None), next, action)
            ==> action is Compare && next is Comparing,
        follows(
            schema_version,
            request_id,
            ControlPhase::Comparing,
            ControlEvent::Generation { matches: true, current },
            next,
            action,
        ) ==> action is Begin && next is Beginning,
        follows(
            schema_version,
            request_id,
            ControlPhase::Beginning,
            ControlEvent::Recorded(done),
            next,
            action,
        ) ==> (action is Execute <==> done is Ok),
        follows(
            schema_version,
            request_id,
            ControlPhase::Beginning,
            ControlEvent::Recorded(Err(error)),
            next,
            action,
        ) ==> action == ControlAction::Answer(Err(error)),
        follows(
            schema_version,
            request_id,
            ControlPhase::Reporting,
            ControlEvent::Reported(Ok(reported)),
            next,
            action,
        ) ==> action is Complete && action->Complete_0@ == reported@ && next is Completing
            && next->Completing_0@ == reported@,
        follows(
            schema_version,
            request_id,
            ControlPhase::Completing(reported),
            ControlEvent::Recorded(done),
            next,
            action,
        ) && done is Ok ==> action is Answer && action->Answer_0 is Ok && action->Answer_0->Ok_0@
            == reported@,
{
}

} // verus!

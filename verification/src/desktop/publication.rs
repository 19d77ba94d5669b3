//! What is done to publish: a step that fails leaves everything as it was.

use vstd::prelude::*;

use crate::error::{error_is, fails_with, ErrorKind, SessionError};

use super::authority::{
    command_result, is_stale, next_revision, published, DesktopStateAuthority, StagedPublication,
};
use super::domain::{
    CapabilityAvailability, DesktopDomainId, DesktopDomainState, DesktopDomainUpdate,
};
use super::localize::{
    answers, assembles, localize_contract_failures, localized, refuses, Said, Verdict,
};
use super::registry::failed_as;
use super::runtime::{ensure_initial_deadline, ensure_publication_active, PublicationControl};
use super::states::DomainStates;
use super::wire::{
    optional_text, DesktopResult, DesktopResultStatus, EventCauseKind, ResultView,
};

verus! {

/// Whether an error says that a publication was given up.
pub open spec fn given_up(control: Option<PublicationControl>, error: SessionError) -> bool {
    control is Some && if control->Some_0.cancelled {
        error_is(error, ErrorKind::Interrupted, "desktop publication was cancelled"@)
    } else {
        !control->Some_0.time_left && error_is(
            error,
            ErrorKind::TimedOut,
            "desktop publication exceeded its deadline"@,
        )
    }
}

/// Whether a publication may go on.
pub open spec fn goes_on(control: Option<PublicationControl>) -> bool {
    control is Some ==> !control->Some_0.cancelled && control->Some_0.time_left
}

/// Whether a look at the control can have found that a publication may go on.
pub open spec fn may_go_on<C: FnOnce() -> Option<PublicationControl>>(look: C) -> bool {
    exists|seen: Option<PublicationControl>| #[trigger]
        call_ensures(look, (), seen) && goes_on(seen)
}

/// Whether a look at the control can have led to an error.
pub open spec fn gave_up<C: FnOnce() -> Option<PublicationControl>>(
    look: C,
    error: SessionError,
) -> bool {
    exists|seen: Option<PublicationControl>| #[trigger]
        call_ensures(look, (), seen) && !goes_on(seen) && given_up(seen, error)
}

/// Whether an error says that there are no states yet.
pub open spec fn says_uninitialized(error: SessionError) -> bool {
    error_is(error, ErrorKind::NotConnected, "desktop authority has not initialized"@)
}

/// What the first snapshot was prepared from.
pub enum InitializationAssembly {
    /// The snapshot that there is already.
    Existing(String),
    Staged { states: DomainStates, generation: u64, event: String },
}

/// How far the first snapshot has come when the clock is looked at.
#[derive(Debug, Clone, Copy, PartialEq, Eq, Structural)]
pub enum InitializationStage {
    Begun,
    Assembled,
    Numbered,
    Written,
}

/// Whether a look at the clock at a stage can have come before a deadline.
pub open spec fn in_time<C: Fn(InitializationStage) -> u64>(
    clock: C,
    stage: InitializationStage,
    deadline: u64,
) -> bool {
    exists|now: u64| #[trigger] call_ensures(clock, (stage,), now) && now < deadline
}

/// Whether a look at the clock at a stage can have come too late.
pub open spec fn out_of_time<C: Fn(InitializationStage) -> u64>(
    clock: C,
    stage: InitializationStage,
    deadline: u64,
) -> bool {
    exists|now: u64| #[trigger] call_ensures(clock, (stage,), now) && now >= deadline
}

/// Whether every number that can be handed out is greater than one before.
pub open spec fn hands_out_above<G: FnOnce() -> Result<u64, SessionError>>(
    next_generation: G,
    before: u64,
) -> bool {
    forall|generation: u64| #[trigger]
        call_ensures(next_generation, (), Ok::<u64, SessionError>(generation)) ==> generation
            > before
}

impl DesktopStateAuthority {
    /// Whether only the report of one domain, or the failure that stands for it,
    /// was taken in.
    pub open spec fn takes_in(
        before: Map<DesktopDomainId, DesktopDomainState>,
        report: DesktopDomainState,
        after: Map<DesktopDomainId, DesktopDomainState>,
    ) -> bool {
        after == before.insert(report.of(), report) || exists|failed: DesktopDomainState| #[trigger]
            failed_as(
                failed,
                report.of(),
                CapabilityAvailability::Parse,
                "producer.contract-invalid"@,
            ) && after == before.insert(report.of(), failed)
    }

    /// Whether the states that stand were told: by an event to those who follow, and
    /// by a snapshot to those who come later, both under the same generation.
    pub open spec fn announced<
        E: FnOnce(u64, &StagedPublication) -> Result<String, SessionError>,
        R: FnOnce(u64, &DomainStates) -> Result<String, SessionError>,
    >(&self, event: E, replay: R, staged: StagedPublication, text: String, replayed: String) -> bool {
        &&& self.held() == Some(staged.states@)
        &&& self.said() == Some(staged.states.said())
        &&& self.snapshot() == Some(replayed@)
        &&& call_ensures(event, (self.generation(), &staged), Ok::<String, SessionError>(text))
        &&& call_ensures(
            replay,
            (self.generation(), &staged.states),
            Ok::<String, SessionError>(replayed),
        )
    }

    /// Whether the states that stand were told by an event of a domain, and by the
    /// snapshot that stands.
    pub open spec fn told_by<
        E: FnOnce(u64, &StagedPublication) -> Result<String, SessionError>,
        R: FnOnce(u64, &DomainStates) -> Result<String, SessionError>,
    >(&self, event: E, replay: R, domain: DesktopDomainId, text: String) -> bool {
        exists|staged: StagedPublication, replayed: String| #[trigger]
            self.announced(event, replay, staged, text, replayed) && staged.domain == domain
    }

    /// Whether there are states, and a report was not observed before the last
    /// command of its domain.
    pub open spec fn expects(&self, update: DesktopDomainUpdate) -> bool {
        self.held() is Some && !is_stale(
            update.observation_revision,
            self.revision(update.state.of()),
        )
    }

    /// Publishes the report of a domain: it is taken in, gets the next generation,
    /// and is told to those who follow and to those who come later. A report that
    /// comes too late is discarded, and no generation is spent on it. Where any step
    /// fails, nothing is published. The control is looked at first of all, and once
    /// more between the assembling and what follows it.
    pub fn publish<
        B: FnOnce() -> Option<PublicationControl>,
        C: FnOnce() -> Option<PublicationControl>,
        F: Fn(&DomainStates) -> Result<usize, SessionError>,
        G: FnOnce() -> Result<u64, SessionError>,
        E: FnOnce(u64, &StagedPublication) -> Result<String, SessionError>,
        R: FnOnce(u64, &DomainStates) -> Result<String, SessionError>,
    >(
        &mut self,
        update: DesktopDomainUpdate,
        cause: EventCauseKind,
        before: B,
        after: C,
        assemble: F,
        next_generation: G,
        event: E,
        replay: R,
    ) -> (outcome: Result<Option<String>, SessionError>)
        requires
            old(self).wf(),
            call_requires(before, ()),
            may_go_on(before) && old(self).expects(update) ==> forall|states: &DomainStates| #[trigger]
                call_requires(assemble, (states,)),
            (exists|states: DomainStates| #[trigger] assembles(assemble, states))
                ==> call_requires(after, ()),
            may_go_on(after) ==> call_requires(next_generation, ()),
            forall|generation: u64, staged: &StagedPublication|
                call_ensures(next_generation, (), Ok::<u64, SessionError>(generation))
                    ==> #[trigger] call_requires(event, (generation, staged)),
            forall|generation: u64, states: &DomainStates|
                call_ensures(next_generation, (), Ok::<u64, SessionError>(generation))
                    ==> #[trigger] call_requires(replay, (generation, states)),
        ensures
            final(self).wf(),
            outcome is Err ==> *final(self) == *old(self),
            exists|seen: Option<PublicationControl>| #[trigger]
                call_ensures(before, (), seen) && if !goes_on(seen) {
                    outcome is Err && given_up(seen, outcome->Err_0)
                } else if old(self).held() is None {
                    outcome is Err && says_uninitialized(outcome->Err_0)
                } else if !old(self).expects(update) {
                    outcome is Ok && outcome->Ok_0 is None
                } else {
                    match outcome {
                        Ok(told) => told is Some && may_go_on(after),
                        Err(error) => {
                            ||| refuses(assemble, error)
                            ||| gave_up(after, error)
                            ||| call_ensures(next_generation, (), Err::<u64, SessionError>(error))
                            ||| exists|generation: u64, staged: &StagedPublication| #[trigger]
                                call_ensures(
                                    event,
                                    (generation, staged),
                                    Err::<String, SessionError>(error),
                                )
                            ||| exists|generation: u64, states: &DomainStates| #[trigger]
                                call_ensures(
                                    replay,
                                    (generation, states),
                                    Err::<String, SessionError>(error),
                                )
                        },
                    }
                },
            outcome matches Ok(None) ==> {
                &&& *final(self) == *old(self)
                &&& old(self).held() is Some
                &&& is_stale(update.observation_revision, old(self).revision(update.state.of()))
            },
            outcome matches Ok(Some(_)) ==> {
                &&& old(self).held() is Some
                &&& !is_stale(update.observation_revision, old(self).revision(update.state.of()))
                &&& final(self).held() is Some
                &&& Self::takes_in(
                    old(self).held()->Some_0,
                    update.state,
                    final(self).held()->Some_0,
                )
                &&& call_ensures(
                    next_generation,
                    (),
                    Ok::<u64, SessionError>(final(self).generation()),
                )
            },
            // Generations grow from publication to publication where the numbers that
            // are handed out do.
            outcome matches Ok(Some(_)) && hands_out_above(next_generation, old(self).generation())
                ==> final(self).generation() > old(self).generation(),
            outcome matches Ok(Some(_)) ==> forall|verdicts: spec_fn(Said) -> Verdict| #[trigger]
                answers(assemble, verdicts) ==> published(
                    verdicts,
                    old(self).said()->Some_0,
                    update.state@,
                ) == Ok::<Said, (ErrorKind, Seq<char>)>(final(self).said()->Some_0),
            outcome matches Ok(Some(_)) && final(self).held()->Some_0
                != old(self).held()->Some_0.insert(update.state.of(), update.state) ==> exists|
                error: SessionError,
            | #[trigger]
                refuses(assemble, error),
            outcome matches Ok(Some(text)) ==> final(self).told_by(
                event,
                replay,
                update.state.of(),
                text,
            ),
            outcome matches Ok(Some(_)) ==> forall|domain: DesktopDomainId| #[trigger]
                final(self).revision(domain) == if domain == update.state.of() {
                    next_revision(old(self).revision(domain), cause)
                } else {
                    old(self).revision(domain)
                },
    {
        let first = before();
        let ghost seen_first = first;
        if let Err(error) = ensure_publication_active(first) {
            assert(given_up(seen_first, error));
            return Err(error);
        }
        assert(goes_on(seen_first));
        let staged = match self.stage_publication(update, assemble) {
            Ok(Some(staged)) => staged,
            Ok(None) => return Ok(None),
            Err(error) => return Err(error),
        };
        let second = after();
        let ghost seen_second = second;
        if let Err(error) = ensure_publication_active(second) {
            assert(given_up(seen_second, error) && !goes_on(seen_second));
            assert(gave_up(after, error));
            return Err(error);
        }
        assert(goes_on(seen_second));
        let generation: u64 = match next_generation() {
            Ok(generation) => generation,
            Err(error) => return Err(error),
        };
        let text = match event(generation, &staged) {
            Ok(text) => text,
            Err(error) => return Err(error),
        };
        let replayed = match replay(generation, &staged.states) {
            Ok(text) => text,
            Err(error) => return Err(error),
        };
        let ghost kept = staged;
        let ghost told = replayed;
        self.commit_publication(staged, cause, generation, replayed);
        proof {
            assert(self.announced(event, replay, kept, text, told));
            assert(self.announced(event, replay, kept, text, told) && kept.domain
                == update.state.of());
            assert(self.told_by(event, replay, update.state.of(), text));
            assert(Self::takes_in(old(self).held()->Some_0, update.state, kept.states@));
        }
        Ok(Some(text))
    }

    /// Whether the outcome of a command was told by an event, and by the snapshot
    /// that stands.
    pub open spec fn told_result<
        E: FnOnce(u64, &DesktopResult) -> Result<String, SessionError>,
        R: FnOnce(u64, &DomainStates) -> Result<String, SessionError>,
    >(&self, event: E, replay: R, result: DesktopResult, text: String) -> bool {
        &&& call_ensures(event, (self.generation(), &result), Ok::<String, SessionError>(text))
        &&& exists|states: &DomainStates, replayed: String|
            {
                &&& self.held() == Some(states@)
                &&& #[trigger] call_ensures(
                    replay,
                    (self.generation(), states),
                    Ok::<String, SessionError>(replayed),
                )
                &&& self.snapshot() == Some(replayed@)
            }
    }

    /// Publishes the outcome of a command under the next generation. The states
    /// stay as they are, and where any step fails everything does.
    pub fn publish_command_result<
        F: Fn(&DomainStates) -> Result<usize, SessionError>,
        G: FnOnce() -> Result<u64, SessionError>,
        V: FnOnce(&DesktopResult) -> Option<String>,
        E: FnOnce(u64, &DesktopResult) -> Result<String, SessionError>,
        R: FnOnce(u64, &DomainStates) -> Result<String, SessionError>,
    >(
        &mut self,
        schema_version: u32,
        request_id: String,
        status: DesktopResultStatus,
        diagnostic: Option<String>,
        assemble: F,
        next_generation: G,
        rejection: V,
        event: E,
        replay: R,
    ) -> (published: Result<(String, DesktopResult), SessionError>)
        requires
            old(self).wf(),
            forall|states: &DomainStates| #[trigger] call_requires(assemble, (states,)),
            old(self).held() is Some && (exists|states: DomainStates| #[trigger]
                assembles(assemble, states)) ==> call_requires(next_generation, ()),
            forall|result: &DesktopResult| #[trigger]
                call_ensures(next_generation, (), Ok::<u64, SessionError>(result.generation))
                    ==> call_requires(rejection, (result,)),
            forall|generation: u64, result: &DesktopResult|
                call_ensures(rejection, (result,), None::<String>) && generation
                    == result.generation ==> #[trigger] call_requires(event, (generation, result)),
            forall|generation: u64, states: &DomainStates|
                call_ensures(next_generation, (), Ok::<u64, SessionError>(generation))
                    ==> #[trigger] call_requires(replay, (generation, states)),
        ensures
            final(self).wf(),
            final(self).held() == old(self).held(),
            final(self).said() == old(self).said(),
            forall|domain: DesktopDomainId| #[trigger]
                final(self).revision(domain) == old(self).revision(domain),
            published is Err ==> *final(self) == *old(self),
            published is Ok && hands_out_above(next_generation, old(self).generation())
                ==> final(self).generation() > old(self).generation(),
            old(self).held() is None ==> published is Err && says_uninitialized(
                published->Err_0,
            ),
            published matches Err(error) ==> {
                ||| old(self).held() is None
                ||| refuses(assemble, error)
                ||| call_ensures(next_generation, (), Err::<u64, SessionError>(error))
                ||| exists|result: &DesktopResult, text: String| #[trigger]
                    call_ensures(rejection, (result,), Some(text)) && error_is(
                        error,
                        ErrorKind::InvalidData,
                        text@,
                    )
                ||| exists|generation: u64, result: &DesktopResult| #[trigger]
                    call_ensures(event, (generation, result), Err::<String, SessionError>(error))
                ||| exists|generation: u64, states: &DomainStates| #[trigger]
                    call_ensures(replay, (generation, states), Err::<String, SessionError>(error))
            },
            published matches Ok(told) ==> {
                &&& old(self).held() is Some
                &&& call_ensures(
                    next_generation,
                    (),
                    Ok::<u64, SessionError>(final(self).generation()),
                )
                &&& told.1@ == (ResultView {
                    schema_version,
                    request_id: request_id@,
                    generation: final(self).generation(),
                    status,
                    diagnostic: optional_text(diagnostic),
                })
                &&& call_ensures(rejection, (&told.1,), None::<String>)
                &&& final(self).told_result(event, replay, told.1, told.0)
            },
    {
        let states = match self.current_states() {
            Ok(states) => states.copy(),
            Err(error) => return Err(error),
        };
        match assemble(&states) {
            Ok(bytes) => {
                assert(call_ensures(assemble, (&states,), Ok::<usize, SessionError>(bytes)));
                assert(assembles(assemble, states));
            },
            Err(error) => {
                assert(refuses(assemble, error));
                return Err(error);
            },
        }
        let generation: u64 = match next_generation() {
            Ok(generation) => generation,
            Err(error) => return Err(error),
        };
        let result = command_result(schema_version, request_id, generation, status, diagnostic);
        if let Some(text) = rejection(&result) {
            return Err(SessionError { kind: ErrorKind::InvalidData, message: text });
        }
        let text = match event(generation, &result) {
            Ok(text) => text,
            Err(error) => return Err(error),
        };
        let replayed = match replay(generation, &states) {
            Ok(text) => text,
            Err(error) => return Err(error),
        };
        let ghost told = replayed;
        self.commit_result(generation, replayed);
        proof {
            assert(call_ensures(
                replay,
                (self.generation(), &states),
                Ok::<String, SessionError>(told),
            ));
            assert(self.told_result(event, replay, result, text));
        }
        Ok((text, result))
    }

    /// Prepares the first snapshot from what the producers first reported: what
    /// cannot be shown is replaced so that the rest can be, and the snapshot gets
    /// the next generation. The clock is looked at before each step and after the
    /// last, and once the deadline has come nothing more is done. Where there is a
    /// snapshot already, that one stands.
    pub fn stage_initialization<
        C: Fn(InitializationStage) -> u64,
        F: Fn(&DomainStates) -> Result<usize, SessionError>,
        G: FnOnce() -> Result<u64, SessionError>,
        R: FnOnce(u64, &DomainStates) -> Result<String, SessionError>,
    >(
        &self,
        states: DomainStates,
        deadline: u64,
        clock: &C,
        assemble: F,
        next_generation: G,
        replay: R,
    ) -> (assembled: Result<InitializationAssembly, SessionError>)
        requires
            call_requires(*clock, (InitializationStage::Begun,)),
            self.snapshot() is None && in_time(*clock, InitializationStage::Begun, deadline)
                ==> forall|states: &DomainStates| #[trigger] call_requires(assemble, (states,)),
            (exists|kept: DomainStates| #[trigger] assembles(assemble, kept)) ==> call_requires(
                *clock,
                (InitializationStage::Assembled,),
            ),
            in_time(*clock, InitializationStage::Assembled, deadline) ==> call_requires(
                next_generation,
                (),
            ),
            (exists|generation: u64| #[trigger]
                call_ensures(next_generation, (), Ok::<u64, SessionError>(generation)))
                ==> call_requires(*clock, (InitializationStage::Numbered,)),
            in_time(*clock, InitializationStage::Numbered, deadline) ==> forall|
                generation: u64,
                kept: &DomainStates,
            |
                call_ensures(next_generation, (), Ok::<u64, SessionError>(generation))
                    ==> #[trigger] call_requires(replay, (generation, kept)),
            (exists|generation: u64, kept: &DomainStates, event: String| #[trigger]
                call_ensures(replay, (generation, kept), Ok::<String, SessionError>(event)))
                ==> call_requires(*clock, (InitializationStage::Written,)),
        ensures
            !in_time(*clock, InitializationStage::Begun, deadline) ==> fails_with(
                assembled,
                ErrorKind::TimedOut,
                "desktop.initialization-timeout"@,
            ),
            self.snapshot() is Some && !out_of_time(*clock, InitializationStage::Begun, deadline)
                ==> assembled matches Ok(InitializationAssembly::Existing(_)),
            assembled matches Err(error) ==> {
                ||| exists|stage: InitializationStage| #[trigger]
                    out_of_time(*clock, stage, deadline) && error_is(
                        error,
                        ErrorKind::TimedOut,
                        "desktop.initialization-timeout"@,
                    )
                ||| self.snapshot() is None && {
                    ||| refuses(assemble, error)
                    ||| call_ensures(next_generation, (), Err::<u64, SessionError>(error))
                    ||| exists|generation: u64, kept: &DomainStates| #[trigger]
                        call_ensures(replay, (generation, kept), Err::<String, SessionError>(error))
                }
            },
            assembled matches Ok(InitializationAssembly::Existing(text)) ==> self.snapshot() == Some(
                text@,
            ),
            assembled matches Ok(InitializationAssembly::Staged { states: kept, generation, event })
                ==> {
                &&& self.snapshot() is None
                &&& forall|stage: InitializationStage| #[trigger] in_time(*clock, stage, deadline)
                &&& call_ensures(next_generation, (), Ok::<u64, SessionError>(generation))
                &&& call_ensures(replay, (generation, &kept), Ok::<String, SessionError>(event))
                &&& assembles(assemble, kept)
                &&& forall|verdicts: spec_fn(Said) -> Verdict| #[trigger]
                    answers(assemble, verdicts) ==> localized(verdicts, states.said()) == Ok::<
                        Said,
                        (ErrorKind, Seq<char>),
                    >(kept.said())
            },
    {
        let now: u64 = clock(InitializationStage::Begun);
        if let Err(error) = ensure_initial_deadline(now, deadline) {
            assert(out_of_time(*clock, InitializationStage::Begun, deadline));
            return Err(error);
        }
        assert(in_time(*clock, InitializationStage::Begun, deadline));
        if let Some(existing) = self.latest_snapshot() {
            return Ok(InitializationAssembly::Existing(existing.to_owned()));
        }
        let kept = match localize_contract_failures(states, assemble) {
            Ok(kept) => kept,
            Err(error) => return Err(error),
        };
        let now: u64 = clock(InitializationStage::Assembled);
        if let Err(error) = ensure_initial_deadline(now, deadline) {
            assert(out_of_time(*clock, InitializationStage::Assembled, deadline));
            return Err(error);
        }
        assert(in_time(*clock, InitializationStage::Assembled, deadline));
        let generation: u64 = match next_generation() {
            Ok(generation) => generation,
            Err(error) => return Err(error),
        };
        let now: u64 = clock(InitializationStage::Numbered);
        if let Err(error) = ensure_initial_deadline(now, deadline) {
            assert(out_of_time(*clock, InitializationStage::Numbered, deadline));
            return Err(error);
        }
        assert(in_time(*clock, InitializationStage::Numbered, deadline));
        let event = match replay(generation, &kept) {
            Ok(event) => event,
            Err(error) => return Err(error),
        };
        assert(call_ensures(replay, (generation, &kept), Ok::<String, SessionError>(event)));
        let now: u64 = clock(InitializationStage::Written);
        if let Err(error) = ensure_initial_deadline(now, deadline) {
            assert(out_of_time(*clock, InitializationStage::Written, deadline));
            return Err(error);
        }
        assert(in_time(*clock, InitializationStage::Written, deadline));
        Ok(InitializationAssembly::Staged { states: kept, generation, event })
    }
}

} // verus!

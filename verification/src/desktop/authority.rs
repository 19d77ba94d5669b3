//! The authority over the desktop state: what is published, under which
//! generation, and which observations come too late.

use vstd::prelude::*;

use crate::error::{fails_with, ErrorKind, SessionError};

use super::domain::{
    places_are_a_bijection, CapabilityAvailability, DesktopDomainId, DesktopDomainState,
    DesktopDomainUpdate, DesktopObservation, DOMAIN_COUNT,
};
use super::localize::{agrees, answers, assembles, invalid_view, refuses, Said, Verdict};
use super::registry::{contract_invalid, failed_as};
use super::states::DomainStates;
use super::wire::{optional_text, DesktopResult, DesktopResultStatus, EventCauseKind, ResultView};

verus! {

/// The states with the report of one domain taken in, ready to be published.
pub struct StagedPublication {
    pub domain: DesktopDomainId,
    pub states: DomainStates,
}

/// The authority over the desktop state.
pub struct DesktopStateAuthority {
    states: Option<DomainStates>,
    current_generation: u64,
    latest_snapshot: Option<String>,
    revisions: Vec<u64>,
}

/// Whether an update was observed at another revision than the current one.
pub open spec fn is_stale(observed: Option<u64>, revision: u64) -> bool {
    observed is Some && observed->Some_0 != revision
}

/// The revision of a domain after a publication: a command makes every
/// observation that was begun before it stale.
pub open spec fn next_revision(revision: u64, cause: EventCauseKind) -> u64 {
    if cause == EventCauseKind::Request {
        revision.wrapping_add(1)
    } else {
        revision
    }
}

/// An observation that was begun before a command is discarded after it, and one
/// that was begun before any other publication is not.
pub proof fn observations_before_a_command_are_discarded(revision: u64, cause: EventCauseKind)
    ensures
        is_stale(Some(revision), next_revision(revision, cause)) <==> cause
            == EventCauseKind::Request,
        !is_stale(None, revision),
{
}

/// What a report leaves of the states: the report itself where the whole can be
/// assembled with it, and otherwise the failure that says so.
pub open spec fn published(
    verdicts: spec_fn(Said) -> Verdict,
    before: Said,
    update: super::domain::StateView,
) -> Result<Said, (ErrorKind, Seq<char>)> {
    let with_report = before.insert(update.domain, update);
    if verdicts(with_report) is Ok {
        Ok(with_report)
    } else {
        let with_failure = before.insert(update.domain, invalid_view(update.domain));
        match verdicts(with_failure) {
            Ok(_) => Ok(with_failure),
            Err(error) => Err(error),
        }
    }
}

impl DesktopStateAuthority {
    /// The states, once there are any.
    pub closed spec fn held(&self) -> Option<Map<DesktopDomainId, DesktopDomainState>> {
        match self.states {
            Some(states) => Some(states@),
            None => None,
        }
    }

    /// What the states say.
    pub closed spec fn said(&self) -> Option<Said> {
        match self.states {
            Some(states) => Some(states.said()),
            None => None,
        }
    }

    pub closed spec fn generation(&self) -> u64 {
        self.current_generation
    }

    /// The snapshot that a new subscriber gets.
    pub closed spec fn snapshot(&self) -> Option<Seq<char>> {
        optional_text(self.latest_snapshot)
    }

    /// The revision at which a domain is observed.
    pub closed spec fn revision(&self, domain: DesktopDomainId) -> u64 {
        self.revisions@[domain.place()]
    }

    pub closed spec fn wf(&self) -> bool {
        self.revisions@.len() == DOMAIN_COUNT
    }

    /// Opens an authority that has no states yet.
    pub fn open(event_capacity: usize) -> (authority: Result<DesktopStateAuthority, SessionError>)
        ensures
            if event_capacity == 0 {
                fails_with(
                    authority,
                    ErrorKind::InvalidInput,
                    "desktop event capacity must be positive"@,
                )
            } else {
                &&& authority is Ok
                &&& authority->Ok_0.wf()
                &&& authority->Ok_0.held() is None
                &&& authority->Ok_0.generation() == 0
                &&& authority->Ok_0.snapshot() is None
                &&& forall|domain: DesktopDomainId| #[trigger]
                    authority->Ok_0.revision(domain) == 0
            },
    {
        if event_capacity == 0 {
            return Err(
                SessionError::new(
                    ErrorKind::InvalidInput,
                    "desktop event capacity must be positive",
                ),
            );
        }
        let mut revisions: Vec<u64> = Vec::new();
        for i in 0..DOMAIN_COUNT
            invariant
                revisions@.len() == i,
                forall|j: int| 0 <= j < i ==> revisions@[j] == 0,
        {
            revisions.push(0);
        }
        let authority = DesktopStateAuthority {
            states: None,
            current_generation: 0,
            latest_snapshot: None,
            revisions,
        };
        proof {
            assert forall|domain: DesktopDomainId| #[trigger] authority.revision(domain) == 0 by {
                places_are_a_bijection(domain, 0);
            }
        }
        Ok(authority)
    }

    /// The snapshot that a new subscriber gets, once there is one.
    pub fn latest_snapshot(&self) -> (snapshot: Option<&str>)
        ensures
            match snapshot {
                Some(text) => self.snapshot() == Some(text@),
                None => self.snapshot() is None,
            },
    {
        match &self.latest_snapshot {
            Some(text) => Some(text.as_str()),
            None => None,
        }
    }

    /// Takes over the first states, unless there are states already. Gives the
    /// snapshot that stands.
    pub fn install(&mut self, states: DomainStates, generation: u64, event: String) -> (stands:
        String)
        requires
            old(self).wf(),
        ensures
            final(self).wf(),
            match old(self).snapshot() {
                Some(existing) => {
                    &&& stands@ == existing
                    &&& *final(self) == *old(self)
                },
                None => {
                    &&& stands@ == event@
                    &&& final(self).held() == Some(states@)
                    &&& final(self).said() == Some(states.said())
                    &&& final(self).generation() == generation
                    &&& final(self).snapshot() == Some(event@)
                    &&& forall|domain: DesktopDomainId| #[trigger]
                        final(self).revision(domain) == old(self).revision(domain)
                },
            },
    {
        match &self.latest_snapshot {
            Some(existing) => existing.clone(),
            None => {
                self.states = Some(states);
                self.current_generation = generation;
                self.latest_snapshot = Some(event.clone());
                event
            },
        }
    }

    /// Begins an observation of a domain at its current revision.
    pub fn begin_observation(&self, domain: DesktopDomainId) -> (observation: DesktopObservation)
        requires
            self.wf(),
        ensures
            observation.domain == domain,
            observation.revision == self.revision(domain),
    {
        DesktopObservation { domain, revision: self.revisions[domain.index()] }
    }

    /// The states, or the failure that there are none.
    pub fn current_states(&self) -> (states: Result<&DomainStates, SessionError>)
        ensures
            match self.held() {
                Some(held) => states is Ok && states->Ok_0@ == held && self.said() == Some(
                    states->Ok_0.said(),
                ),
                None => fails_with(
                    states,
                    ErrorKind::NotConnected,
                    "desktop authority has not initialized"@,
                ),
            },
    {
        match &self.states {
            Some(states) => Ok(states),
            None => Err(
                SessionError::new(
                    ErrorKind::NotConnected,
                    "desktop authority has not initialized",
                ),
            ),
        }
    }

    /// Takes in the report of a domain, without publishing it yet. A report that
    /// was observed before a command is discarded. A report that the whole cannot
    /// be assembled with is replaced by the failure that says so.
    pub fn stage_publication<F: Fn(&DomainStates) -> Result<usize, SessionError>>(
        &self,
        update: DesktopDomainUpdate,
        assemble: F,
    ) -> (staged: Result<Option<StagedPublication>, SessionError>)
        requires
            self.wf(),
            self.held() is Some && !is_stale(
                update.observation_revision,
                self.revision(update.state.of()),
            ) ==> forall|states: &DomainStates| #[trigger] call_requires(assemble, (states,)),
        ensures
            match self.held() {
                None => fails_with(
                    staged,
                    ErrorKind::NotConnected,
                    "desktop authority has not initialized"@,
                ),
                Some(held) => {
                    let domain = update.state.of();
                    if is_stale(update.observation_revision, self.revision(domain)) {
                        staged is Ok && staged->Ok_0 is None
                    } else {
                        &&& staged is Ok ==> {
                            let publication = staged->Ok_0->Some_0;
                            &&& staged->Ok_0 is Some
                            &&& publication.domain == domain
                            &&& publication.states@ == held.insert(domain, update.state)
                                || exists|failed: DesktopDomainState|
                                #[trigger] failed_as(
                                    failed,
                                    domain,
                                    CapabilityAvailability::Parse,
                                    "producer.contract-invalid"@,
                                ) && publication.states@ == held.insert(domain, failed)
                        }
                        &&& staged is Ok ==> assembles(assemble, staged->Ok_0->Some_0.states)
                        &&& staged is Ok && staged->Ok_0->Some_0.states@ != held.insert(
                            domain,
                            update.state,
                        ) ==> exists|error: SessionError| #[trigger] refuses(assemble, error)
                        &&& staged is Err ==> refuses(assemble, staged->Err_0)
                        &&& forall|verdicts: spec_fn(Said) -> Verdict| #[trigger]
                            answers(assemble, verdicts) ==> match published(
                                verdicts,
                                self.said()->Some_0,
                                update.state@,
                            ) {
                                Ok(said) => staged is Ok && staged->Ok_0->Some_0.states.said()
                                    == said,
                                Err(error) => fails_with(staged, error.0, error.1),
                            }
                    }
                },
            },
    {
        let current = match self.current_states() {
            Ok(states) => states,
            Err(error) => return Err(error),
        };
        let domain = update.state.domain();
        proof {
            places_are_a_bijection(domain, 0);
        }
        match update.observation_revision {
            Some(observed) => {
                if observed != self.revisions[domain.index()] {
                    return Ok(None);
                }
            },
            None => {},
        }
        let ghost view = update.state@;
        let ghost before = current.said();
        let mut staged = current.copy();
        staged.insert(domain, update.state);
        assert(staged.said() =~= before.insert(domain, view));
        let first = assemble(&staged);
        proof {
            assert forall|verdicts: spec_fn(Said) -> Verdict| #[trigger]
                answers(assemble, verdicts) implies agrees(first, verdicts(staged.said())) by {}
        }
        match first {
            Ok(bytes) => {
                assert(call_ensures(assemble, (&staged,), Ok::<usize, SessionError>(bytes)));
            },
            Err(error) => {
                assert(refuses(assemble, error));
                let failed = contract_invalid(domain);
                let ghost failure = failed@;
                let ghost with_report = staged@;
                staged.insert(domain, failed);
                assert(staged.said() =~= before.insert(domain, failure));
                assert(failure == invalid_view(domain));
                assert(staged@ =~= current@.insert(domain, failed));
                let second = assemble(&staged);
                proof {
                    assert forall|verdicts: spec_fn(Said) -> Verdict| #[trigger]
                        answers(assemble, verdicts) implies agrees(
                        second,
                        verdicts(staged.said()),
                    ) by {}
                }
                match second {
                    Ok(bytes) => {
                        assert(call_ensures(
                            assemble,
                            (&staged,),
                            Ok::<usize, SessionError>(bytes),
                        ));
                    },
                    Err(error) => return Err(error),
                }
            },
        }
        Ok(Some(StagedPublication { domain, states: staged }))
    }

    /// Publishes what was staged under a new generation.
    pub fn commit_publication(
        &mut self,
        staged: StagedPublication,
        cause: EventCauseKind,
        generation: u64,
        replay: String,
    )
        requires
            old(self).wf(),
        ensures
            final(self).wf(),
            final(self).held() == Some(staged.states@),
            final(self).said() == Some(staged.states.said()),
            final(self).generation() == generation,
            final(self).snapshot() == Some(replay@),
            forall|domain: DesktopDomainId| #[trigger]
                final(self).revision(domain) == if domain == staged.domain {
                    next_revision(old(self).revision(domain), cause)
                } else {
                    old(self).revision(domain)
                },
    {
        let place: usize = staged.domain.index();
        if cause == EventCauseKind::Request {
            let revision: u64 = self.revisions[place];
            self.revisions.set(place, revision.wrapping_add(1));
        }
        proof {
            assert forall|domain: DesktopDomainId| #[trigger]
                self.revision(domain) == if domain == staged.domain {
                    next_revision(old(self).revision(domain), cause)
                } else {
                    old(self).revision(domain)
                } by {
                places_are_a_bijection(domain, 0);
                places_are_a_bijection(staged.domain, domain.place());
            }
        }
        self.states = Some(staged.states);
        self.latest_snapshot = Some(replay);
        self.current_generation = generation;
    }

    /// Publishes the outcome of a command: the states stay as they are.
    pub fn commit_result(&mut self, generation: u64, replay: String)
        requires
            old(self).wf(),
        ensures
            final(self).wf(),
            final(self).held() == old(self).held(),
            final(self).said() == old(self).said(),
            final(self).generation() == generation,
            final(self).snapshot() == Some(replay@),
            forall|domain: DesktopDomainId| #[trigger]
                final(self).revision(domain) == old(self).revision(domain),
    {
        self.latest_snapshot = Some(replay);
        self.current_generation = generation;
    }

    pub fn current_generation(&self) -> (generation: u64)
        ensures
            generation == self.generation(),
    {
        self.current_generation
    }

    /// Whether a command was made against the current generation, and which that
    /// is.
    pub fn checked_generation(&self, expected: u64) -> (checked: (bool, u64))
        ensures
            checked == (self.generation() == expected, self.generation()),
    {
        (self.current_generation == expected, self.current_generation)
    }
}

/// The outcome of a command under a generation.
pub fn command_result(
    schema_version: u32,
    request_id: String,
    generation: u64,
    status: DesktopResultStatus,
    diagnostic: Option<String>,
) -> (result: DesktopResult)
    ensures
        result@ == (ResultView {
            schema_version,
            request_id: request_id@,
            generation,
            status,
            diagnostic: optional_text(diagnostic),
        }),
{
    DesktopResult { schema_version, request_id, generation, status, diagnostic }
}

/// What a subscriber got from the stream of events.
pub enum Received {
    Event(String),
    Lagged,
    Closed,
}

/// What a subscriber gets next.
pub enum SubscriberStep {
    /// The snapshot; the stream is not looked at.
    Replay(String),
    /// What the stream gives.
    Await,
}

/// What a subscriber was promised and what it got.
pub struct SubscriptionView {
    /// The snapshot that stood when it subscribed.
    pub snapshot: Seq<char>,
    /// The generation of that snapshot.
    pub generation: u64,
    /// Whether the snapshot is still to come.
    pub pending: bool,
    /// What it got, in order.
    pub got: Seq<Seq<char>>,
}

/// Whether a subscriber got nothing while its snapshot is still to come, and got the
/// snapshot first of all otherwise.
pub open spec fn snapshot_first(view: SubscriptionView) -> bool {
    if view.pending {
        view.got.len() == 0
    } else {
        view.got.len() > 0 && view.got[0] == view.snapshot
    }
}

/// A subscription whose snapshot was handed out.
pub open spec fn with_replay(view: SubscriptionView) -> SubscriptionView {
    SubscriptionView { pending: false, got: view.got.push(view.snapshot), ..view }
}

/// A subscription after what the stream gave.
pub open spec fn with_received(view: SubscriptionView, received: Received) -> SubscriptionView {
    match received {
        Received::Event(text) => SubscriptionView { got: view.got.push(text@), ..view },
        _ => view,
    }
}

/// A subscription after all that the stream gave.
pub open spec fn with_all_received(view: SubscriptionView, received: Seq<Received>) -> SubscriptionView
    decreases received.len(),
{
    if received.len() == 0 {
        view
    } else {
        with_received(with_all_received(view, received.drop_last()), received.last())
    }
}

/// The texts of the events that the stream gave.
pub open spec fn events_in(received: Seq<Received>) -> Seq<Seq<char>>
    decreases received.len(),
{
    if received.len() == 0 {
        Seq::empty()
    } else {
        match received.last() {
            Received::Event(text) => events_in(received.drop_last()).push(text@),
            _ => events_in(received.drop_last()),
        }
    }
}

/// What a new subscriber gets is the snapshot that stood when it subscribed, and after
/// it the events of the stream, each once and in the order in which they came.
pub proof fn a_subscriber_gets_the_snapshot_first(view: SubscriptionView, received: Seq<Received>)
    requires
        snapshot_first(view),
        view.pending,
    ensures
        with_all_received(with_replay(view), received).got == seq![view.snapshot] + events_in(
            received,
        ),
        snapshot_first(with_all_received(with_replay(view), received)),
    decreases received.len(),
{
    if received.len() > 0 {
        a_subscriber_gets_the_snapshot_first(view, received.drop_last());
        let before = with_all_received(with_replay(view), received.drop_last());
        if let Received::Event(text) = received.last() {
            assert(before.got.push(text@) =~= seq![view.snapshot] + events_in(received));
        }
    } else {
        assert(view.got.push(view.snapshot) =~= seq![view.snapshot] + events_in(received));
    }
}

/// A subscriber: it gets the snapshot first, then the stream of events.
pub struct DesktopSubscriber {
    replay: Option<String>,
    snapshot: Ghost<Seq<char>>,
    generation: Ghost<u64>,
    got: Ghost<Seq<Seq<char>>>,
}

impl View for DesktopSubscriber {
    type V = SubscriptionView;

    closed spec fn view(&self) -> SubscriptionView {
        SubscriptionView {
            snapshot: self.snapshot@,
            generation: self.generation@,
            pending: self.replay is Some,
            got: self.got@,
        }
    }
}

impl DesktopSubscriber {
    /// The snapshot that is still to come is the one that was promised, and nothing
    /// comes before it.
    pub closed spec fn wf(&self) -> bool {
        &&& self.replay is Some ==> self.replay->Some_0@ == self.snapshot@
        &&& snapshot_first(self@)
    }

    /// The snapshot comes first in every subscription.
    pub proof fn holds(&self)
        requires
            self.wf(),
        ensures
            snapshot_first(self@),
    {
    }

    /// Subscribes to an authority, once it has a snapshot.
    pub fn subscribe(authority: &DesktopStateAuthority) -> (subscriber: Option<DesktopSubscriber>)
        ensures
            match subscriber {
                Some(subscriber) => subscriber.wf() && authority.snapshot() is Some && subscriber@
                    == (SubscriptionView {
                    snapshot: authority.snapshot()->Some_0,
                    generation: authority.generation(),
                    pending: true,
                    got: Seq::empty(),
                }),
                None => authority.snapshot() is None,
            },
    {
        match authority.latest_snapshot() {
            Some(text) => Some(
                DesktopSubscriber {
                    replay: Some(text.to_owned()),
                    snapshot: Ghost(text@),
                    generation: Ghost(authority.generation()),
                    got: Ghost(Seq::empty()),
                },
            ),
            None => None,
        }
    }

    /// What the subscriber gets next: the snapshot while it is still to come, and what
    /// the stream gives after that.
    pub fn next(&mut self) -> (step: SubscriberStep)
        requires
            old(self).wf(),
        ensures
            final(self).wf(),
            if old(self)@.pending {
                &&& step matches SubscriberStep::Replay(text) && text@ == old(self)@.snapshot
                &&& final(self)@ == with_replay(old(self)@)
            } else {
                &&& step is Await
                &&& final(self)@ == old(self)@
            },
    {
        match self.replay.take() {
            Some(text) => {
                self.got = Ghost(self.got@.push(text@));
                SubscriberStep::Replay(text)
            },
            None => SubscriberStep::Await,
        }
    }

    /// Hands on what the stream gave, once the snapshot was handed out.
    pub fn recv(&mut self, received: Received) -> (event: Result<String, SessionError>)
        requires
            old(self).wf(),
            !old(self)@.pending,
        ensures
            final(self).wf(),
            final(self)@ == with_received(old(self)@, received),
            match received {
                Received::Event(text) => event == Ok::<String, SessionError>(text),
                Received::Lagged => fails_with(
                    event,
                    ErrorKind::InvalidData,
                    "desktop event subscriber exceeded its bounded queue"@,
                ),
                Received::Closed => fails_with(
                    event,
                    ErrorKind::UnexpectedEof,
                    "desktop event authority closed"@,
                ),
            },
    {
        match received {
            Received::Event(text) => {
                self.got = Ghost(self.got@.push(text@));
                Ok(text)
            },
            Received::Lagged => Err(
                SessionError::new(
                    ErrorKind::InvalidData,
                    "desktop event subscriber exceeded its bounded queue",
                ),
            ),
            Received::Closed => Err(
                SessionError::new(ErrorKind::UnexpectedEof, "desktop event authority closed"),
            ),
        }
    }
}

} // verus!

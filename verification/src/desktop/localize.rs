//! Keeping the desktop whole when single domains cannot be shown.
//!
//! A domain whose report breaks the protocol on its own is replaced by the
//! failure that says so. Where the rest is still too large for one frame, the
//! largest contributions go first.

use vstd::prelude::*;

use crate::error::{ErrorKind, SessionError};
use crate::text::same_text;

use super::domain::{
    places_are_a_bijection, CapabilityAvailability, DesktopDomainId, DesktopDomainState, StateView,
    DOMAIN_COUNT,
};
use super::registry::{contract_invalid, over_budget, probe_isolation};
use super::states::DomainStates;

verus! {

/// What the states of the domains say.
pub type Said = Map<DesktopDomainId, StateView>;

/// The size of an assembled snapshot in bytes, or why there is none.
pub type Verdict = Result<usize, (ErrorKind, Seq<char>)>;

pub open spec fn failed_view(
    domain: DesktopDomainId,
    status: CapabilityAvailability,
    reason: Seq<char>,
) -> StateView {
    StateView { domain, status, value: None, reason: Some(reason) }
}

/// What a domain says whose report breaks the protocol.
pub open spec fn invalid_view(domain: DesktopDomainId) -> StateView {
    failed_view(domain, CapabilityAvailability::Parse, "producer.contract-invalid"@)
}

/// What a domain says that was dropped for its size.
pub open spec fn dropped_view(domain: DesktopDomainId) -> StateView {
    failed_view(domain, CapabilityAvailability::Parse, "producer.aggregate-budget-exceeded"@)
}

/// States that say nothing of any domain.
pub open spec fn baseline() -> Said {
    Map::new(
        |domain: DesktopDomainId| true,
        |domain: DesktopDomainId|
            failed_view(
                domain,
                CapabilityAvailability::Unsupported,
                "producer.probe-isolation"@,
            ),
    )
}

/// One state among states that say nothing.
pub open spec fn isolated(domain: DesktopDomainId, state: StateView) -> Said {
    baseline().insert(domain, state)
}

/// The states once each of the first domains that cannot be assembled on its own
/// is replaced.
pub open spec fn screened(
    verdicts: spec_fn(Said) -> Verdict,
    states: Said,
    place: int,
) -> Said
    decreases place,
{
    if place <= 0 {
        states
    } else {
        let earlier = screened(verdicts, states, place - 1);
        let domain = DesktopDomainId::at(place - 1);
        if earlier.contains_key(domain) && verdicts(isolated(domain, earlier[domain])) is Err {
            earlier.insert(domain, invalid_view(domain))
        } else {
            earlier
        }
    }
}

/// A domain with the size of its snapshot on its own.
pub struct Contribution {
    pub bytes: usize,
    pub domain: DesktopDomainId,
}

/// Whether a contribution goes before another: it is larger, or as large and of a
/// later domain.
pub open spec fn heavier(left: Contribution, right: Contribution) -> bool {
    left.bytes > right.bytes || left.bytes == right.bytes && left.domain.place()
        > right.domain.place()
}

/// What each of the first domains that have a value contributes.
pub open spec fn contributions(
    verdicts: spec_fn(Said) -> Verdict,
    states: Said,
    place: int,
) -> Seq<Contribution>
    decreases place,
{
    if place <= 0 {
        Seq::empty()
    } else {
        let earlier = contributions(verdicts, states, place - 1);
        let domain = DesktopDomainId::at(place - 1);
        if states.contains_key(domain) && states[domain].status
            == CapabilityAvailability::Available {
            let bytes = match verdicts(isolated(domain, states[domain])) {
                Ok(bytes) => bytes,
                Err(_) => 0,
            };
            earlier.push(Contribution { bytes, domain })
        } else {
            earlier
        }
    }
}

/// The place of the contribution that goes first.
pub open spec fn heaviest(list: Seq<Contribution>) -> int
    decreases list.len(),
{
    if list.len() <= 1 {
        0
    } else {
        let earlier = heaviest(list.drop_last());
        if heavier(list.last(), list[earlier]) {
            list.len() - 1
        } else {
            earlier
        }
    }
}

/// The contribution that goes first is heavier than every other one.
pub proof fn heaviest_facts(list: Seq<Contribution>)
    requires
        list.len() > 0,
    ensures
        0 <= heaviest(list) < list.len(),
        forall|i: int| 0 <= i < list.len() ==> !heavier(#[trigger] list[i], list[heaviest(list)]),
    decreases list.len(),
{
    if list.len() > 1 {
        let shorter = list.drop_last();
        heaviest_facts(shorter);
        assert forall|i: int| 0 <= i < list.len() implies !heavier(
            #[trigger] list[i],
            list[heaviest(list)],
        ) by {
            if i < shorter.len() {
                assert(!heavier(shorter[i], shorter[heaviest(shorter)]));
            }
        }
    }
}

/// The states once enough contributions are dropped, the heaviest first, that
/// they can be assembled.
pub open spec fn lightened(
    verdicts: spec_fn(Said) -> Verdict,
    states: Said,
    list: Seq<Contribution>,
) -> Option<Said>
    decreases list.len(),
{
    let at = heaviest(list);
    if list.len() == 0 || at < 0 || at >= list.len() {
        None
    } else {
        let domain = list[at].domain;
        let dropped = states.insert(domain, dropped_view(domain));
        if verdicts(dropped) is Ok {
            Some(dropped)
        } else {
            lightened(verdicts, dropped, list.remove(at))
        }
    }
}

/// Whether a failure is about the size of the whole.
pub open spec fn too_large(message: Seq<char>) -> bool {
    message == "desktop.frame-too-large"@ || message == "desktop.aggregate-budget-exceeded"@
}

/// The states that are kept, or why none can be.
pub open spec fn localized(verdicts: spec_fn(Said) -> Verdict, states: Said) -> Result<
    Said,
    (ErrorKind, Seq<char>),
> {
    let kept = screened(verdicts, states, DOMAIN_COUNT as int);
    match verdicts(kept) {
        Ok(_) => Ok(kept),
        Err(error) => if !too_large(error.1) {
            Err(error)
        } else {
            match lightened(verdicts, kept, contributions(verdicts, kept, DOMAIN_COUNT as int)) {
                Some(rest) => Ok(rest),
                None => Err(error),
            }
        },
    }
}

/// What is kept can be assembled.
pub proof fn localized_states_can_be_assembled(
    verdicts: spec_fn(Said) -> Verdict,
    states: Said,
)
    ensures
        localized(verdicts, states) is Ok ==> verdicts(localized(verdicts, states)->Ok_0) is Ok,
{
    let kept = screened(verdicts, states, DOMAIN_COUNT as int);
    let list = contributions(verdicts, kept, DOMAIN_COUNT as int);
    lightened_is_accepted(verdicts, kept, list);
}

proof fn lightened_is_accepted(
    verdicts: spec_fn(Said) -> Verdict,
    states: Said,
    list: Seq<Contribution>,
)
    ensures
        lightened(verdicts, states, list) is Some ==> verdicts(
            lightened(verdicts, states, list)->Some_0,
        ) is Ok,
    decreases list.len(),
{
    if list.len() > 0 {
        let at = heaviest(list);
        heaviest_facts(list);
        let dropped = states.insert(list[at].domain, dropped_view(list[at].domain));
        if verdicts(dropped) is Err {
            lightened_is_accepted(verdicts, dropped, list.remove(at));
        }
    }
}

/// States that can be assembled, together and each on its own, are kept as they are.
pub proof fn states_that_can_be_assembled_are_kept(
    verdicts: spec_fn(Said) -> Verdict,
    states: Said,
)
    requires
        verdicts(states) is Ok,
        forall|domain: DesktopDomainId| #[trigger]
            states.contains_key(domain) ==> verdicts(isolated(domain, states[domain])) is Ok,
    ensures
        localized(verdicts, states) == Ok::<Said, (ErrorKind, Seq<char>)>(states),
{
    nothing_is_screened_out(verdicts, states, DOMAIN_COUNT as int);
}

proof fn nothing_is_screened_out(
    verdicts: spec_fn(Said) -> Verdict,
    states: Said,
    place: int,
)
    requires
        forall|domain: DesktopDomainId| #[trigger]
            states.contains_key(domain) ==> verdicts(isolated(domain, states[domain])) is Ok,
    ensures
        screened(verdicts, states, place) == states,
    decreases place,
{
    if place > 0 {
        nothing_is_screened_out(verdicts, states, place - 1);
    }
}

/// Whatever happens to one domain leaves the others alone: each domain keeps its
/// state, or is replaced by one of the two failures.
pub proof fn every_domain_is_kept_or_replaced(
    verdicts: spec_fn(Said) -> Verdict,
    states: Said,
    domain: DesktopDomainId,
)
    requires
        localized(verdicts, states) is Ok,
        states.contains_key(domain),
    ensures
        ({
            let kept = localized(verdicts, states)->Ok_0;
            &&& kept.contains_key(domain)
            &&& kept[domain] == states[domain] || kept[domain] == invalid_view(domain)
                || kept[domain] == dropped_view(domain)
        }),
{
    screening_keeps(verdicts, states, DOMAIN_COUNT as int, domain);
    let kept = screened(verdicts, states, DOMAIN_COUNT as int);
    if verdicts(kept) is Err {
        lightening_keeps(
            verdicts,
            kept,
            contributions(verdicts, kept, DOMAIN_COUNT as int),
            domain,
        );
    }
}

proof fn screening_keeps(
    verdicts: spec_fn(Said) -> Verdict,
    states: Said,
    place: int,
    domain: DesktopDomainId,
)
    requires
        states.contains_key(domain),
    ensures
        screened(verdicts, states, place).contains_key(domain),
        screened(verdicts, states, place)[domain] == states[domain] || screened(
            verdicts,
            states,
            place,
        )[domain] == invalid_view(domain),
    decreases place,
{
    if place > 0 {
        screening_keeps(verdicts, states, place - 1, domain);
    }
}

proof fn lightening_keeps(
    verdicts: spec_fn(Said) -> Verdict,
    states: Said,
    list: Seq<Contribution>,
    domain: DesktopDomainId,
)
    requires
        states.contains_key(domain),
        lightened(verdicts, states, list) is Some,
    ensures
        ({
            let rest = lightened(verdicts, states, list)->Some_0;
            &&& rest.contains_key(domain)
            &&& rest[domain] == states[domain] || rest[domain] == dropped_view(domain)
        }),
    decreases list.len(),
{
    heaviest_facts(list);
    let at = heaviest(list);
    let dropped = states.insert(list[at].domain, dropped_view(list[at].domain));
    if verdicts(dropped) is Err {
        lightening_keeps(verdicts, dropped, list.remove(at), domain);
    }
}

/// Whether a result is this verdict.
pub open spec fn agrees(result: Result<usize, SessionError>, verdict: Verdict) -> bool {
    match result {
        Ok(bytes) => verdict == Ok::<usize, (ErrorKind, Seq<char>)>(bytes),
        Err(error) => verdict == Err::<usize, (ErrorKind, Seq<char>)>(
            (error.kind, error.message@),
        ),
    }
}

/// Whether a function that assembles states answers by what they say alone.
pub open spec fn answers<F: Fn(&DomainStates) -> Result<usize, SessionError>>(
    assemble: F,
    verdicts: spec_fn(Said) -> Verdict,
) -> bool {
    forall|states: &DomainStates, result: Result<usize, SessionError>|
        #[trigger] call_ensures(assemble, (states,), result) ==> agrees(
            result,
            verdicts(states.said()),
        )
}

/// Whether a function assembles states.
pub open spec fn assembles<F: Fn(&DomainStates) -> Result<usize, SessionError>>(
    assemble: F,
    states: DomainStates,
) -> bool {
    exists|bytes: usize| #[trigger]
        call_ensures(assemble, (&states,), Ok::<usize, SessionError>(bytes))
}

/// Whether a function refuses to assemble some states with an error.
pub open spec fn refuses<F: Fn(&DomainStates) -> Result<usize, SessionError>>(
    assemble: F,
    error: SessionError,
) -> bool {
    exists|states: &DomainStates| #[trigger]
        call_ensures(assemble, (states,), Err::<usize, SessionError>(error))
}

/// Whether a result is the states that are kept, or the failure.
pub open spec fn keeps(
    result: Result<DomainStates, SessionError>,
    expected: Result<Said, (ErrorKind, Seq<char>)>,
) -> bool {
    match result {
        Ok(states) => expected == Ok::<Said, (ErrorKind, Seq<char>)>(states.said()),
        Err(error) => expected == Err::<Said, (ErrorKind, Seq<char>)>(
            (error.kind, error.message@),
        ),
    }
}

fn baseline_states() -> (states: DomainStates)
    ensures
        states.said() == baseline(),
{
    let mut states = DomainStates::new();
    for i in 0..DOMAIN_COUNT
        invariant
            forall|domain: DesktopDomainId|
                0 <= domain.place() < i ==> blank_in(states@, domain),
    {
        let domain = DesktopDomainId::from_index(i);
        let ghost before = states@;
        let state = probe_isolation(domain);
        states.insert(domain, state);
        proof {
            assert forall|other: DesktopDomainId| 0 <= other.place() < i + 1 implies blank_in(
                states@,
                other,
            ) by {
                places_are_a_bijection(other, i as int);
                if other.place() < i {
                    assert(blank_in(before, other));
                }
            }
        }
    }
    proof {
        assert forall|domain: DesktopDomainId| blank_in(states@, domain) by {
            places_are_a_bijection(domain, 0);
        }
        assert forall|domain: DesktopDomainId| #[trigger] states.said().contains_key(
            domain,
        ) == baseline().contains_key(domain) by {
            assert(blank_in(states@, domain));
        }
        assert forall|domain: DesktopDomainId|
            #![trigger states.said()[domain]]
            states.said()[domain] == baseline()[domain] by {
            assert(blank_in(states@, domain));
        }
    }
    assert(states.said() =~= baseline());
    states
}

/// Whether nothing is said of a domain.
spec fn blank_in(
    states: Map<DesktopDomainId, DesktopDomainState>,
    domain: DesktopDomainId,
) -> bool {
    states.contains_key(domain) && states[domain]@ == baseline()[domain]
}

/// One state among states that say nothing.
fn isolate(domain: DesktopDomainId, states: &DomainStates, base: &DomainStates) -> (alone: DomainStates)
    requires
        states@.contains_key(domain),
        base.said() == baseline(),
    ensures
        alone.said() == isolated(domain, states.said()[domain]),
{
    let mut alone = base.copy();
    alone.take_from(domain, states);
    assert(alone.said() =~= isolated(domain, states.said()[domain]));
    alone
}

/// Whether each of the states is kept, or replaced by a failure that says why it
/// cannot be shown.
pub open spec fn kept_or_replaced(given: Said, kept: Said) -> bool {
    forall|domain: DesktopDomainId| #[trigger]
        given.contains_key(domain) ==> kept.contains_key(domain) && (kept[domain] == given[domain]
            || kept[domain] == invalid_view(domain) || kept[domain] == dropped_view(domain))
}

/// Replaces what cannot be shown so that the rest can be. The function that
/// assembles states gives the size of the snapshot, or says why there is none.
#[verifier::loop_isolation(false)]
pub fn localize_contract_failures<F: Fn(&DomainStates) -> Result<usize, SessionError>>(
    states: DomainStates,
    assemble: F,
) -> (kept: Result<DomainStates, SessionError>)
    requires
        forall|states: &DomainStates| #[trigger] call_requires(assemble, (states,)),
    ensures
        forall|verdicts: spec_fn(Said) -> Verdict| #[trigger]
            answers(assemble, verdicts) ==> keeps(kept, localized(verdicts, states.said())),
        kept is Ok ==> assembles(assemble, kept->Ok_0),
        kept is Ok ==> kept_or_replaced(states.said(), kept->Ok_0.said()),
        kept is Err ==> refuses(assemble, kept->Err_0),
{
    let ghost given = states.said();
    let base = baseline_states();
    let mut current = states;
    for i in 0..DOMAIN_COUNT
        invariant
            kept_or_replaced(given, current.said()),
            forall|verdicts: spec_fn(Said) -> Verdict| #[trigger]
                answers(assemble, verdicts) ==> current.said() == screened(
                    verdicts,
                    given,
                    i as int,
                ),
    {
        let domain = DesktopDomainId::from_index(i);
        if current.get(domain).is_some() {
            let alone = isolate(domain, &current, &base);
            let result = assemble(&alone);
            proof {
                assert forall|verdicts: spec_fn(Said) -> Verdict| #[trigger]
                    answers(assemble, verdicts) implies agrees(
                    result,
                    verdicts(isolated(domain, current.said()[domain])),
                ) by {
                    assert(agrees(result, verdicts(alone.said())));
                }
            }
            if result.is_err() {
                let ghost before = current.said();
                let state = contract_invalid(domain);
                let ghost view = state@;
                current.insert(domain, state);
                assert(current.said() =~= before.insert(domain, view));
                assert(view == invalid_view(domain));
            }
        }
    }
    let whole = assemble(&current);
    proof {
        assert forall|verdicts: spec_fn(Said) -> Verdict| #[trigger]
            answers(assemble, verdicts) implies agrees(whole, verdicts(current.said())) by {}
    }
    let error = match whole {
        Ok(bytes) => return Ok(current),
        Err(error) => error,
    };
    assert(refuses(assemble, error));
    if !same_text(error.message.as_str(), "desktop.frame-too-large") && !same_text(
        error.message.as_str(),
        "desktop.aggregate-budget-exceeded",
    ) {
        return Err(error);
    }
    let mut list: Vec<Contribution> = Vec::new();
    for i in 0..DOMAIN_COUNT
        invariant
            forall|verdicts: spec_fn(Said) -> Verdict| #[trigger]
                answers(assemble, verdicts) ==> list@ == contributions(
                    verdicts,
                    current.said(),
                    i as int,
                ),
    {
        let domain = DesktopDomainId::from_index(i);
        let available = match current.get(domain) {
            Some(state) => matches!(state.status(), CapabilityAvailability::Available),
            None => false,
        };
        if available {
            let alone = isolate(domain, &current, &base);
            let result = assemble(&alone);
            proof {
                assert forall|verdicts: spec_fn(Said) -> Verdict| #[trigger]
                    answers(assemble, verdicts) implies agrees(
                    result,
                    verdicts(isolated(domain, current.said()[domain])),
                ) by {
                    assert(agrees(result, verdicts(alone.said())));
                }
            }
            let bytes: usize = match result {
                Ok(bytes) => bytes,
                Err(_) => 0,
            };
            list.push(Contribution { bytes, domain });
        }
    }
    let ghost screen = current.said();
    let ghost all = list@;
    while list.len() > 0
        invariant
            kept_or_replaced(given, current.said()),
            forall|verdicts: spec_fn(Said) -> Verdict| #[trigger]
                answers(assemble, verdicts) ==> lightened(verdicts, current.said(), list@)
                    == lightened(verdicts, screen, all),
        decreases list.len(),
    {
        let at: usize = heaviest_place(&list);
        proof {
            heaviest_facts(list@);
        }
        let domain = list[at].domain;
        let ghost before = current.said();
        let state = over_budget(domain);
        let ghost view = state@;
        current.insert(domain, state);
        assert(current.said() =~= before.insert(domain, view));
        assert(view == dropped_view(domain));
        let result = assemble(&current);
        proof {
            assert forall|verdicts: spec_fn(Said) -> Verdict| #[trigger]
                answers(assemble, verdicts) implies agrees(result, verdicts(current.said())) by {}
        }
        match result {
            Ok(bytes) => return Ok(current),
            Err(_) => {},
        }
        list.remove(at);
    }
    Err(error)
}

/// The place of the contribution that goes first.
fn heaviest_place(list: &Vec<Contribution>) -> (at: usize)
    requires
        list@.len() > 0,
    ensures
        at == heaviest(list@),
        at < list@.len(),
{
    let mut at: usize = 0;
    let mut i: usize = 1;
    assert(list@.take(1).len() == 1);
    while i < list.len()
        invariant
            1 <= i <= list@.len(),
            at < i,
            at == heaviest(list@.take(i as int)),
        decreases list.len() - i,
    {
        assert(list@.take(i + 1).drop_last() =~= list@.take(i as int));
        let current = &list[i];
        let best = &list[at];
        if current.bytes > best.bytes || current.bytes == best.bytes && current.domain.index()
            > best.domain.index() {
            at = i;
        }
        i = i + 1;
    }
    assert(list@.take(list@.len() as int) =~= list@);
    at
}

} // verus!

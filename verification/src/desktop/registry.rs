//! The producers of the domains: which there must be, what they report at first,
//! and which of their reports are kept when the whole cannot be assembled.

use vstd::prelude::*;

use crate::error::{fails_with, ErrorKind, SessionError};
use crate::text::is_blank;

use super::domain::{
    places_are_a_bijection, CapabilityAvailability, DesktopDomainId, DesktopDomainState,
    DOMAIN_COUNT,
};
use super::states::DomainStates;

verus! {

// ---------------------------------------------------------------------------
// Producers
// ---------------------------------------------------------------------------

/// The domains that have a producer: exactly one each.
pub struct DesktopRegistry {
    domains: Vec<DesktopDomainId>,
}

/// The first domain that occurs a second time.
pub open spec fn first_repeated(domains: Seq<DesktopDomainId>) -> Option<DesktopDomainId>
    decreases domains.len(),
{
    if domains.len() == 0 {
        None
    } else {
        match first_repeated(domains.drop_last()) {
            Some(domain) => Some(domain),
            None => if domains.drop_last().contains(domains.last()) {
                Some(domains.last())
            } else {
                None
            },
        }
    }
}

/// The domains before a place in the order that do not occur.
pub open spec fn missing_before(domains: Seq<DesktopDomainId>, place: int) -> Seq<DesktopDomainId>
    decreases place,
{
    if place <= 0 {
        Seq::empty()
    } else {
        let earlier = missing_before(domains, place - 1);
        let domain = DesktopDomainId::at(place - 1);
        if domains.contains(domain) {
            earlier
        } else {
            earlier.push(domain)
        }
    }
}

/// The names of domains, separated by commas.
pub open spec fn title_list(domains: Seq<DesktopDomainId>) -> Seq<char>
    decreases domains.len(),
{
    if domains.len() == 0 {
        Seq::empty()
    } else if domains.len() == 1 {
        domains[0].title()
    } else {
        title_list(domains.drop_last()) + ", "@ + domains.last().title()
    }
}

fn list_names(domains: &Vec<DesktopDomainId>) -> (text: String)
    ensures
        text@ == title_list(domains@),
{
    let mut text = String::new();
    for i in 0..domains.len()
        invariant
            text@ == title_list(domains@.take(i as int)),
    {
        proof {
            assert(domains@.take(i + 1).drop_last() =~= domains@.take(i as int));
        }
        let ghost before = text@;
        if i > 0 {
            text.append(", ");
        }
        text.append(domains[i].name());
        proof {
            if i == 0 {
                assert(before =~= Seq::<char>::empty());
                assert(text@ =~= domains@[0].title());
            }
        }
    }
    assert(domains@.take(domains@.len() as int) =~= domains@);
    text
}

fn has_domain(domains: &Vec<DesktopDomainId>, domain: DesktopDomainId) -> (found: bool)
    ensures
        found == domains@.contains(domain),
{
    for i in 0..domains.len()
        invariant
            forall|j: int| 0 <= j < i ==> domains@[j] != domain,
    {
        if domains[i] == domain {
            return true;
        }
    }
    false
}

/// Whether every domain occurs, and none twice.
pub open spec fn one_of_each(domains: Seq<DesktopDomainId>) -> bool {
    &&& forall|domain: DesktopDomainId| domains.contains(domain)
    &&& first_repeated(domains) is None
}

proof fn missing_facts(domains: Seq<DesktopDomainId>, place: int)
    requires
        0 <= place <= DOMAIN_COUNT,
    ensures
        missing_before(domains, place).len() == 0 <==> forall|i: int|
            0 <= i < place ==> domains.contains(#[trigger] DesktopDomainId::at(i)),
    decreases place,
{
    if place > 0 {
        missing_facts(domains, place - 1);
        let domain = DesktopDomainId::at(place - 1);
        if missing_before(domains, place).len() == 0 {
            assert(domains.contains(domain));
            assert forall|i: int| 0 <= i < place implies domains.contains(
                #[trigger] DesktopDomainId::at(i),
            ) by {
                if i < place - 1 {
                    assert(domains.contains(DesktopDomainId::at(i)));
                }
            }
        }
    }
}

impl DesktopRegistry {
    pub closed spec fn produced(&self) -> Seq<DesktopDomainId> {
        self.domains@
    }

    /// Accepts one producer for every domain.
    pub fn new(producers: Vec<DesktopDomainId>) -> (registry: Result<DesktopRegistry, SessionError>)
        ensures
            match first_repeated(producers@) {
                Some(domain) => fails_with(
                    registry,
                    ErrorKind::InvalidInput,
                    "duplicate desktop producer for "@ + domain.title(),
                ),
                None => {
                    let missing = missing_before(producers@, DOMAIN_COUNT as int);
                    if missing.len() > 0 {
                        fails_with(
                            registry,
                            ErrorKind::InvalidInput,
                            "missing desktop producers: ["@ + title_list(missing) + "]"@,
                        )
                    } else {
                        registry is Ok && registry->Ok_0.produced() == producers@
                    }
                },
            },
            registry is Ok <==> one_of_each(producers@),
    {
        let mut seen: Vec<DesktopDomainId> = Vec::new();
        assert(producers@.take(0) =~= Seq::empty());
        for i in 0..producers.len()
            invariant
                seen@ == producers@.take(i as int),
                first_repeated(producers@.take(i as int)) is None,
        {
            let domain = producers[i];
            proof {
                assert(producers@.take(i + 1).drop_last() =~= producers@.take(i as int));
            }
            if has_domain(&seen, domain) {
                proof {
                    repeat_stays(producers@, i + 1);
                }
                let mut message = "duplicate desktop producer for ".to_owned();
                message.append(domain.name());
                return Err(SessionError { kind: ErrorKind::InvalidInput, message });
            }
            seen.push(domain);
            assert(seen@ =~= producers@.take(i + 1));
        }
        assert(producers@.take(producers@.len() as int) =~= producers@);
        let mut missing: Vec<DesktopDomainId> = Vec::new();
        for i in 0..DOMAIN_COUNT
            invariant
                missing@ == missing_before(producers@, i as int),
        {
            let domain = DesktopDomainId::from_index(i);
            if !has_domain(&producers, domain) {
                missing.push(domain);
            }
        }
        proof {
            missing_facts(producers@, DOMAIN_COUNT as int);
        }
        if missing.len() > 0 {
            proof {
                let absent = choose|i: int|
                    0 <= i < DOMAIN_COUNT && !producers@.contains(#[trigger] DesktopDomainId::at(i));
                assert(!producers@.contains(DesktopDomainId::at(absent)));
            }
            let mut message = "missing desktop producers: [".to_owned();
            message.append(list_names(&missing).as_str());
            message.append("]");
            return Err(SessionError { kind: ErrorKind::InvalidInput, message });
        }
        proof {
            assert forall|domain: DesktopDomainId| producers@.contains(domain) by {
                places_are_a_bijection(domain, 0);
                assert(producers@.contains(DesktopDomainId::at(domain.place())));
            }
        }
        Ok(DesktopRegistry { domains: producers })
    }

    /// The domains, in the order of their producers.
    pub fn domains(&self) -> (domains: &Vec<DesktopDomainId>)
        ensures
            domains@ == self.produced(),
    {
        &self.domains
    }
}

/// A domain that occurs a second time among the first producers is the first
/// that does among all.
proof fn repeat_stays(domains: Seq<DesktopDomainId>, count: int)
    requires
        0 <= count <= domains.len(),
        first_repeated(domains.take(count)) is Some,
    ensures
        first_repeated(domains) == first_repeated(domains.take(count)),
    decreases domains.len() - count,
{
    if count < domains.len() {
        assert(domains.take(count + 1).drop_last() =~= domains.take(count));
        repeat_stays(domains, count + 1);
    } else {
        assert(domains.take(count) =~= domains);
    }
}

/// Which producer serves a domain in the running session.
#[derive(Debug, Clone, Copy, PartialEq, Eq, Structural)]
pub enum ProducerKind {
    Core,
    Osd,
    Logind,
    Hyprland,
    Notifications,
    Daily,
    Appearance,
    Resources,
    Utility,
}

pub open spec fn kind_of(domain: DesktopDomainId) -> ProducerKind {
    match domain {
        DesktopDomainId::Network | DesktopDomainId::Bluetooth | DesktopDomainId::Audio
        | DesktopDomainId::Media | DesktopDomainId::Battery | DesktopDomainId::Brightness
        | DesktopDomainId::NightLight | DesktopDomainId::Power => ProducerKind::Core,
        DesktopDomainId::Osd => ProducerKind::Osd,
        DesktopDomainId::Lock => ProducerKind::Logind,
        DesktopDomainId::Hyprland => ProducerKind::Hyprland,
        DesktopDomainId::Notifications => ProducerKind::Notifications,
        DesktopDomainId::Launcher | DesktopDomainId::Calendar | DesktopDomainId::Weather =>
            ProducerKind::Daily,
        DesktopDomainId::Appearance => ProducerKind::Appearance,
        DesktopDomainId::Resources => ProducerKind::Resources,
        DesktopDomainId::Tray | DesktopDomainId::Clipboard | DesktopDomainId::Recording
        | DesktopDomainId::IdleInhibit | DesktopDomainId::GameMode | DesktopDomainId::Screenshot
        | DesktopDomainId::ColorPicker => ProducerKind::Utility,
    }
}

/// The producer of a domain in the running session.
pub fn production_kind(domain: DesktopDomainId) -> (kind: ProducerKind)
    ensures
        kind == kind_of(domain),
{
    match domain {
        DesktopDomainId::Network | DesktopDomainId::Bluetooth | DesktopDomainId::Audio
        | DesktopDomainId::Media | DesktopDomainId::Battery | DesktopDomainId::Brightness
        | DesktopDomainId::NightLight | DesktopDomainId::Power => ProducerKind::Core,
        DesktopDomainId::Osd => ProducerKind::Osd,
        DesktopDomainId::Lock => ProducerKind::Logind,
        DesktopDomainId::Hyprland => ProducerKind::Hyprland,
        DesktopDomainId::Notifications => ProducerKind::Notifications,
        DesktopDomainId::Launcher | DesktopDomainId::Calendar | DesktopDomainId::Weather =>
            ProducerKind::Daily,
        DesktopDomainId::Appearance => ProducerKind::Appearance,
        DesktopDomainId::Resources => ProducerKind::Resources,
        DesktopDomainId::Tray | DesktopDomainId::Clipboard | DesktopDomainId::Recording
        | DesktopDomainId::IdleInhibit | DesktopDomainId::GameMode | DesktopDomainId::Screenshot
        | DesktopDomainId::ColorPicker => ProducerKind::Utility,
    }
}

// ---------------------------------------------------------------------------
// Terminal states with fixed reasons
// ---------------------------------------------------------------------------

/// Whether a state has no value, for a given reason.
pub open spec fn failed_as(
    state: DesktopDomainState,
    domain: DesktopDomainId,
    status: CapabilityAvailability,
    reason: Seq<char>,
) -> bool {
    &&& state.of() == domain
    &&& state.state() == status
    &&& state.data() is None
    &&& state.reason() == Some(reason)
}

/// A state without a value, for a reason that is not blank.
pub fn terminal_state(
    domain: DesktopDomainId,
    status: CapabilityAvailability,
    reason: &str,
) -> (state: DesktopDomainState)
    requires
        status != CapabilityAvailability::Available,
        !is_blank(reason@),
    ensures
        failed_as(state, domain, status, reason@),
{
    match DesktopDomainState::terminal(domain, status, reason.to_owned()) {
        Ok(state) => state,
        Err(_) => vstd::pervasive::unreached(),
    }
}

/// The state of a domain whose report breaks the protocol.
pub fn contract_invalid(domain: DesktopDomainId) -> (state: DesktopDomainState)
    ensures
        failed_as(state, domain, CapabilityAvailability::Parse, "producer.contract-invalid"@),
{
    proof {
        reveal_strlit("producer.contract-invalid");
        assert("producer.contract-invalid"@[0] == 'p');
    }
    terminal_state(domain, CapabilityAvailability::Parse, "producer.contract-invalid")
}

pub fn over_budget(domain: DesktopDomainId) -> (state: DesktopDomainState)
    ensures
        failed_as(
            state,
            domain,
            CapabilityAvailability::Parse,
            "producer.aggregate-budget-exceeded"@,
        ),
{
    proof {
        reveal_strlit("producer.aggregate-budget-exceeded");
        assert("producer.aggregate-budget-exceeded"@[0] == 'p');
    }
    terminal_state(domain, CapabilityAvailability::Parse, "producer.aggregate-budget-exceeded")
}

pub fn probe_isolation(domain: DesktopDomainId) -> (state: DesktopDomainState)
    ensures
        failed_as(
            state,
            domain,
            CapabilityAvailability::Unsupported,
            "producer.probe-isolation"@,
        ),
{
    proof {
        reveal_strlit("producer.probe-isolation");
        assert("producer.probe-isolation"@[0] == 'p');
    }
    terminal_state(domain, CapabilityAvailability::Unsupported, "producer.probe-isolation")
}

// ---------------------------------------------------------------------------
// The first states
// ---------------------------------------------------------------------------

/// Whether a state is the one that a domain has whose producer reported none in
/// time.
pub open spec fn unreported(
    state: DesktopDomainState,
    domain: DesktopDomainId,
    deadline_elapsed: bool,
) -> bool {
    if deadline_elapsed {
        failed_as(
            state,
            domain,
            CapabilityAvailability::Timeout,
            "producer initial state exceeded the two second deadline"@,
        )
    } else {
        failed_as(
            state,
            domain,
            CapabilityAvailability::Error,
            "producer initial task failed"@,
        )
    }
}

fn unreported_state(domain: DesktopDomainId, deadline_elapsed: bool) -> (state: DesktopDomainState)
    ensures
        unreported(state, domain, deadline_elapsed),
{
    if deadline_elapsed {
        proof {
            reveal_strlit("producer initial state exceeded the two second deadline");
            assert("producer initial state exceeded the two second deadline"@[0] == 'p');
        }
        terminal_state(
            domain,
            CapabilityAvailability::Timeout,
            "producer initial state exceeded the two second deadline",
        )
    } else {
        proof {
            reveal_strlit("producer initial task failed");
            assert("producer initial task failed"@[0] == 'p');
        }
        terminal_state(domain, CapabilityAvailability::Error, "producer initial task failed")
    }
}

/// Records the first report of a producer. A report about another domain breaks
/// the protocol.
pub fn record_initial(
    states: &mut DomainStates,
    domain: DesktopDomainId,
    state: DesktopDomainState,
)
    ensures
        if state.of() == domain {
            final(states)@ == old(states)@.insert(domain, state)
        } else {
            exists|failed: DesktopDomainState|
                #[trigger] failed_as(
                    failed,
                    domain,
                    CapabilityAvailability::Parse,
                    "producer.contract-invalid"@,
                ) && final(states)@ == old(states)@.insert(domain, failed)
        },
{
    if state.domain() == domain {
        states.insert(domain, state);
    } else {
        let failed = contract_invalid(domain);
        states.insert(domain, failed);
    }
}

/// Gives every domain without a report the state that says so.
pub fn fill_unreported(states: &mut DomainStates, deadline_elapsed: bool)
    ensures
        forall|domain: DesktopDomainId| #[trigger] final(states)@.contains_key(domain),
        forall|domain: DesktopDomainId|
            old(states)@.contains_key(domain) ==> #[trigger] final(states)@[domain] == old(
                states,
            )@[domain],
        forall|domain: DesktopDomainId|
            !old(states)@.contains_key(domain) ==> unreported(
                #[trigger] final(states)@[domain],
                domain,
                deadline_elapsed,
            ),
{
    let ghost before = states@;
    for i in 0..DOMAIN_COUNT
        invariant
            forall|domain: DesktopDomainId|
                domain.place() < i || before.contains_key(domain) ==> #[trigger] states@.contains_key(
                    domain,
                ),
            forall|domain: DesktopDomainId|
                before.contains_key(domain) ==> #[trigger] states@[domain] == before[domain],
            forall|domain: DesktopDomainId|
                !before.contains_key(domain) && domain.place() < i ==> unreported(
                    #[trigger] states@[domain],
                    domain,
                    deadline_elapsed,
                ),
            forall|domain: DesktopDomainId|
                domain.place() >= i && !before.contains_key(domain)
                    ==> !#[trigger] states@.contains_key(domain),
    {
        let domain = DesktopDomainId::from_index(i);
        proof {
            assert forall|other: DesktopDomainId| other.place() == i implies other == domain by {
                places_are_a_bijection(other, i as int);
            }
        }
        if states.get(domain).is_none() {
            let state = unreported_state(domain, deadline_elapsed);
            states.insert(domain, state);
        }
    }
    proof {
        assert forall|domain: DesktopDomainId| #[trigger] states@.contains_key(domain) by {
            places_are_a_bijection(domain, 0);
        }
        assert forall|domain: DesktopDomainId| !before.contains_key(domain) implies unreported(
            #[trigger] states@[domain],
            domain,
            deadline_elapsed,
        ) by {
            places_are_a_bijection(domain, 0);
        }
    }
}

} // verus!

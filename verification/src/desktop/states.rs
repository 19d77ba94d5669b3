//! What is known of every domain at one time.

use std::sync::Arc;

use vstd::prelude::*;

use super::domain::{
    places_are_a_bijection, DesktopDomainId, DesktopDomainState, StateView, DOMAIN_COUNT,
};
use crate::sharing::share;

verus! {

/// A state for each domain, or none.
pub struct DomainStates {
    slots: Vec<Option<Arc<DesktopDomainState>>>,
}

impl View for DomainStates {
    type V = Map<DesktopDomainId, DesktopDomainState>;

    closed spec fn view(&self) -> Map<DesktopDomainId, DesktopDomainState> {
        Map::new(
            |domain: DesktopDomainId| self.slots@[domain.place()] is Some,
            |domain: DesktopDomainId| *self.slots@[domain.place()]->Some_0,
        )
    }
}

impl DomainStates {
    /// What the states say.
    pub open spec fn said(&self) -> Map<DesktopDomainId, StateView> {
        self@.map_values(|state: DesktopDomainState| state@)
    }

    #[verifier::type_invariant]
    closed spec fn wf(&self) -> bool {
        self.slots@.len() == DOMAIN_COUNT
    }

    /// No domain has a state.
    pub fn new() -> (states: DomainStates)
        ensures
            states@ == Map::<DesktopDomainId, DesktopDomainState>::empty(),
    {
        let mut slots: Vec<Option<Arc<DesktopDomainState>>> = Vec::new();
        for i in 0..DOMAIN_COUNT
            invariant
                slots@.len() == i,
                forall|j: int| 0 <= j < i ==> slots@[j] is None,
        {
            slots.push(None);
        }
        let states = DomainStates { slots };
        proof {
            assert forall|domain: DesktopDomainId| !states@.dom().contains(domain) by {
                places_are_a_bijection(domain, 0);
            }
        }
        assert(states@ =~= Map::<DesktopDomainId, DesktopDomainState>::empty());
        states
    }

    pub fn get(&self, domain: DesktopDomainId) -> (state: Option<&DesktopDomainState>)
        ensures
            match state {
                Some(state) => self@.contains_key(domain) && self@[domain] == *state,
                None => !self@.contains_key(domain),
            },
    {
        proof {
            use_type_invariant(self);
            places_are_a_bijection(domain, 0);
        }
        match &self.slots[domain.index()] {
            Some(state) => Some(&**state),
            None => None,
        }
    }

    pub fn insert(&mut self, domain: DesktopDomainId, state: DesktopDomainState)
        ensures
            final(self)@ == old(self)@.insert(domain, state),
    {
        let shared: Arc<DesktopDomainState> = Arc::new(state);
        self.put(domain, shared);
    }

    fn put(&mut self, domain: DesktopDomainId, state: Arc<DesktopDomainState>)
        ensures
            final(self)@ == old(self)@.insert(domain, *state),
    {
        let ghost before = self.slots@;
        proof {
            use_type_invariant(&*self);
        }
        let mut slots: Vec<Option<Arc<DesktopDomainState>>> = self.shared_slots();
        slots.set(domain.index(), Some(state));
        *self = DomainStates { slots };
        proof {
            places_are_a_bijection(domain, 0);
            assert(self.slots@ == before.update(domain.place(), Some(state)));
            assert forall|other: DesktopDomainId| #[trigger] self@.contains_key(other)
                == old(self)@.insert(domain, *state).contains_key(other) by {
                places_are_a_bijection(other, 0);
                places_are_a_bijection(domain, other.place());
            }
            assert forall|other: DesktopDomainId| #[trigger]
                self@.contains_key(other) implies self@[other] == old(self)@.insert(
                domain,
                *state,
            )[other] by {
                places_are_a_bijection(other, 0);
                places_are_a_bijection(domain, other.place());
            }
        }
        assert(self@ =~= old(self)@.insert(domain, *state));
    }

    fn shared_slots(&self) -> (slots: Vec<Option<Arc<DesktopDomainState>>>)
        ensures
            slots@ == self.slots@,
    {
        let mut slots: Vec<Option<Arc<DesktopDomainState>>> = Vec::new();
        for i in 0..self.slots.len()
            invariant
                slots@ == self.slots@.take(i as int),
        {
            let slot = match &self.slots[i] {
                Some(state) => Some(share(state)),
                None => None,
            };
            slots.push(slot);
            assert(slots@ =~= self.slots@.take(i + 1));
        }
        assert(self.slots@.take(self.slots@.len() as int) =~= self.slots@);
        slots
    }

    /// Another map with the same states.
    pub fn copy(&self) -> (copy: DomainStates)
        ensures
            copy@ == self@,
    {
        proof {
            use_type_invariant(self);
        }
        let copy = DomainStates { slots: self.shared_slots() };
        assert(copy@ =~= self@);
        copy
    }

    /// Takes over the state of one domain from another map.
    pub fn take_from(&mut self, domain: DesktopDomainId, other: &DomainStates)
        requires
            other@.contains_key(domain),
        ensures
            final(self)@ == old(self)@.insert(domain, other@[domain]),
    {
        proof {
            use_type_invariant(other);
            places_are_a_bijection(domain, 0);
        }
        let shared: Option<Arc<DesktopDomainState>> = match &other.slots[domain.index()] {
            Some(state) => Some(share(state)),
            None => None,
        };
        match shared {
            Some(state) => self.put(domain, state),
            None => {},
        }
    }
}

} // verus!

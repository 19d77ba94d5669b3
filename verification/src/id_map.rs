//! A small map from identifiers to values, kept in ascending order.

use vstd::prelude::*;

verus! {

pub struct IdMap<V> {
    entries: Vec<(u64, V)>,
}

pub open spec fn ascending<V>(entries: Seq<(u64, V)>) -> bool {
    forall|i: int, j: int| 0 <= i < j < entries.len() ==> (#[trigger] entries[i]).0 < (
    #[trigger] entries[j]).0
}

pub open spec fn entry_index<V>(entries: Seq<(u64, V)>, id: u64) -> int {
    choose|i: int| 0 <= i < entries.len() && (#[trigger] entries[i]).0 == id
}

pub open spec fn holds_id<V>(entries: Seq<(u64, V)>, id: u64) -> bool {
    exists|i: int| 0 <= i < entries.len() && (#[trigger] entries[i]).0 == id
}

pub open spec fn as_map<V>(entries: Seq<(u64, V)>) -> Map<u64, V> {
    Map::new(|id: u64| holds_id(entries, id), |id: u64| entries[entry_index(entries, id)].1)
}

impl<V> View for IdMap<V> {
    type V = Map<u64, V>;

    closed spec fn view(&self) -> Map<u64, V> {
        as_map(self.entries@)
    }
}

proof fn index_is<V>(entries: Seq<(u64, V)>, i: int)
    requires
        ascending(entries),
        0 <= i < entries.len(),
    ensures
        holds_id(entries, entries[i].0),
        entry_index(entries, entries[i].0) == i,
        as_map(entries)[entries[i].0] == entries[i].1,
{
    let id = entries[i].0;
    let k = entry_index(entries, id);
    assert(entries[i].0 == id);
    if k < i {
        assert(entries[k].0 < entries[i].0);
    } else if i < k {
        assert(entries[i].0 < entries[k].0);
    }
}

impl<V> IdMap<V> {
    pub closed spec fn wf(&self) -> bool {
        ascending(self.entries@)
    }

    pub fn new() -> (map: IdMap<V>)
        ensures
            map.wf(),
            map@ == Map::<u64, V>::empty(),
    {
        let map = IdMap { entries: Vec::new() };
        assert(map@ =~= Map::<u64, V>::empty());
        map
    }

    /// The number of entries.
    pub fn len(&self) -> (count: usize)
        requires
            self.wf(),
        ensures
            count == self.ids().len(),
    {
        self.entries.len()
    }

    /// The identifiers in ascending order.
    pub closed spec fn ids(&self) -> Seq<u64> {
        self.entries@.map_values(|entry: (u64, V)| entry.0)
    }

    /// The listed identifiers are those of the map, each once and ascending.
    pub proof fn ids_are_the_keys(&self)
        requires
            self.wf(),
        ensures
            forall|id: u64| #[trigger] self@.contains_key(id) <==> self.ids().contains(id),
            forall|k: int, l: int| 0 <= k < l < self.ids().len() ==> self.ids()[k] < self.ids()[l],
    {
        assert forall|id: u64| #[trigger] self@.contains_key(id) <==> self.ids().contains(id) by {
            if self@.contains_key(id) {
                let i = entry_index(self.entries@, id);
                assert(self.ids()[i] == id);
            }
            if self.ids().contains(id) {
                let i = choose|i: int| 0 <= i < self.ids().len() && self.ids()[i] == id;
                assert(self.entries@[i].0 == id);
            }
        }
        assert forall|k: int, l: int| 0 <= k < l < self.ids().len() implies self.ids()[k]
            < self.ids()[l] by {
            assert(self.entries@[k].0 < self.entries@[l].0);
        }
    }

    /// The identifier at a place.
    pub fn id_at(&self, at: usize) -> (id: u64)
        requires
            self.wf(),
            at < self.ids().len(),
        ensures
            id == self.ids()[at as int],
            self@.contains_key(id),
    {
        proof {
            index_is(self.entries@, at as int);
        }
        self.entries[at].0
    }

    /// The value at a place.
    pub fn value_at(&self, at: usize) -> (value: &V)
        requires
            self.wf(),
            at < self.ids().len(),
        ensures
            *value == self@[self.ids()[at as int]],
    {
        proof {
            index_is(self.entries@, at as int);
        }
        &self.entries[at].1
    }

    /// The place where an identifier is or would be.
    fn place_of(&self, id: u64) -> (at: usize)
        requires
            self.wf(),
        ensures
            at <= self.entries@.len(),
            forall|i: int| 0 <= i < at ==> (#[trigger] self.entries@[i]).0 < id,
            forall|i: int| at <= i < self.entries@.len() ==> (#[trigger] self.entries@[i]).0 >= id,
            self@.contains_key(id) <==> (at < self.entries@.len() && self.entries@[at as int].0
                == id),
    {
        let mut at: usize = 0;
        while at < self.entries.len() && self.entries[at].0 < id
            invariant
                at <= self.entries@.len(),
                forall|i: int| 0 <= i < at ==> (#[trigger] self.entries@[i]).0 < id,
            decreases self.entries@.len() - at,
        {
            at = at + 1;
        }
        proof {
            assert forall|i: int| at <= i < self.entries@.len() implies (
            #[trigger] self.entries@[i]).0 >= id by {
                if i > at {
                    assert(self.entries@[at as int].0 < self.entries@[i].0);
                }
            }
            if self@.contains_key(id) {
                let k = entry_index(self.entries@, id);
                assert(self.entries@[k].0 == id);
                if k > at {
                    assert(self.entries@[at as int].0 < self.entries@[k].0);
                }
            }
            if at < self.entries@.len() && self.entries@[at as int].0 == id {
                index_is(self.entries@, at as int);
            }
        }
        at
    }

    pub fn contains(&self, id: u64) -> (found: bool)
        requires
            self.wf(),
        ensures
            found == self@.contains_key(id),
    {
        let at: usize = self.place_of(id);
        at < self.entries.len() && self.entries[at].0 == id
    }

    pub fn get(&self, id: u64) -> (value: Option<&V>)
        requires
            self.wf(),
        ensures
            match value {
                Some(v) => self@.contains_key(id) && *v == self@[id],
                None => !self@.contains_key(id),
            },
    {
        let at: usize = self.place_of(id);
        if at < self.entries.len() && self.entries[at].0 == id {
            proof {
                index_is(self.entries@, at as int);
            }
            Some(&self.entries[at].1)
        } else {
            None
        }
    }

    pub fn insert(&mut self, id: u64, value: V)
        requires
            old(self).wf(),
        ensures
            final(self).wf(),
            final(self)@ == old(self)@.insert(id, value),
    {
        let at: usize = self.place_of(id);
        let ghost before = self.entries@;
        if at < self.entries.len() && self.entries[at].0 == id {
            self.entries.set(at, (id, value));
            let ghost after = self.entries@;
            assert forall|i: int, j: int| 0 <= i < j < after.len() implies (#[trigger] after[i]).0
                < (#[trigger] after[j]).0 by {
                assert(before[i].0 < before[j].0);
            }
            proof {
                same_map_but_one(before, after, at as int, id, value);
            }
        } else {
            self.entries.insert(at, (id, value));
            let ghost after = self.entries@;
            assert(after =~= before.insert(at as int, (id, value)));
            assert forall|i: int, j: int| 0 <= i < j < after.len() implies (#[trigger] after[i]).0
                < (#[trigger] after[j]).0 by {
                let oi = if i <= at {
                    i
                } else {
                    i - 1
                };
                let oj = if j <= at {
                    j
                } else {
                    j - 1
                };
                if i != at && j != at {
                    assert(before[oi].0 < before[oj].0);
                } else if i == at {
                    assert(before[oj].0 >= id);
                    assert(before[oj].0 != id) by {
                        if before[oj].0 == id {
                            assert(holds_id(before, id));
                        }
                    }
                }
            }
            proof {
                grown_map(before, after, at as int, id, value);
            }
        }
    }

    pub fn remove(&mut self, id: u64)
        requires
            old(self).wf(),
        ensures
            final(self).wf(),
            final(self)@ == old(self)@.remove(id),
    {
        let at: usize = self.place_of(id);
        if at < self.entries.len() && self.entries[at].0 == id {
            let ghost before = self.entries@;
            let _ = self.entries.remove(at);
            let ghost after = self.entries@;
            assert(after =~= before.remove(at as int));
            assert forall|i: int, j: int| 0 <= i < j < after.len() implies (#[trigger] after[i]).0
                < (#[trigger] after[j]).0 by {
                let oi = if i < at {
                    i
                } else {
                    i + 1
                };
                let oj = if j < at {
                    j
                } else {
                    j + 1
                };
                assert(before[oi].0 < before[oj].0);
            }
            proof {
                shrunk_map(before, after, at as int);
            }
        } else {
            assert(self@ =~= self@.remove(id));
        }
    }
}

proof fn same_map_but_one<V>(
    before: Seq<(u64, V)>,
    after: Seq<(u64, V)>,
    at: int,
    id: u64,
    value: V,
)
    requires
        ascending(before),
        ascending(after),
        0 <= at < before.len(),
        before[at].0 == id,
        after == before.update(at, (id, value)),
    ensures
        as_map(after) == as_map(before).insert(id, value),
{
    let m = as_map(after);
    let n = as_map(before).insert(id, value);
    assert forall|x: u64| m.contains_key(x) <==> n.contains_key(x) by {
        if holds_id(after, x) {
            let i = entry_index(after, x);
            assert(before[i].0 == x);
        }
        if holds_id(before, x) {
            let i = entry_index(before, x);
            assert(after[i].0 == x);
        }
        assert(after[at].0 == id);
    }
    assert forall|x: u64| m.contains_key(x) implies m[x] == n[x] by {
        let i = entry_index(after, x);
        index_is(after, i);
        index_is(before, i);
    }
    assert(m =~= n);
}

proof fn grown_map<V>(before: Seq<(u64, V)>, after: Seq<(u64, V)>, at: int, id: u64, value: V)
    requires
        ascending(before),
        ascending(after),
        0 <= at <= before.len(),
        !holds_id(before, id),
        after == before.insert(at, (id, value)),
    ensures
        as_map(after) == as_map(before).insert(id, value),
{
    let m = as_map(after);
    let n = as_map(before).insert(id, value);
    assert forall|x: u64| m.contains_key(x) <==> n.contains_key(x) by {
        if holds_id(after, x) {
            let i = entry_index(after, x);
            if i < at {
                assert(before[i].0 == x);
            } else if i > at {
                assert(before[i - 1].0 == x);
            }
        }
        if holds_id(before, x) {
            let i = entry_index(before, x);
            if i < at {
                assert(after[i].0 == x);
            } else {
                assert(after[i + 1].0 == x);
            }
        }
        assert(after[at].0 == id);
    }
    assert forall|x: u64| m.contains_key(x) implies m[x] == n[x] by {
        let i = entry_index(after, x);
        index_is(after, i);
        if i < at {
            index_is(before, i);
        } else if i > at {
            index_is(before, i - 1);
        }
        assert(after[at].0 == id);
    }
    assert(m =~= n);
}

proof fn shrunk_map<V>(before: Seq<(u64, V)>, after: Seq<(u64, V)>, at: int)
    requires
        ascending(before),
        ascending(after),
        0 <= at < before.len(),
        after == before.remove(at),
    ensures
        as_map(after) == as_map(before).remove(before[at].0),
{
    let id = before[at].0;
    let m = as_map(after);
    let n = as_map(before).remove(id);
    assert forall|x: u64| m.contains_key(x) <==> n.contains_key(x) by {
        if holds_id(after, x) {
            let i = entry_index(after, x);
            let o = if i < at {
                i
            } else {
                i + 1
            };
            assert(before[o].0 == x);
            if o < at {
                assert(before[o].0 < before[at].0);
            } else {
                assert(before[at].0 < before[o].0);
            }
        }
        if holds_id(before, x) && x != id {
            let i = entry_index(before, x);
            if i < at {
                assert(after[i].0 == x);
            } else {
                assert(after[i - 1].0 == x);
            }
        }
    }
    assert forall|x: u64| m.contains_key(x) implies m[x] == n[x] by {
        let i = entry_index(after, x);
        index_is(after, i);
        let o = if i < at {
            i
        } else {
            i + 1
        };
        index_is(before, o);
    }
    assert(m =~= n);
}

} // verus!

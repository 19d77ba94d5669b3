//! A small map from texts to values.

use vstd::prelude::*;

use crate::text::same_text;

verus! {

pub struct TextMap<V> {
    entries: Vec<(String, V)>,
}

/// The entries with their keys and values as they are seen.
pub open spec fn rows_of<V: View>(entries: Seq<(String, V)>) -> Seq<(Seq<char>, V::V)> {
    entries.map_values(|entry: (String, V)| (entry.0@, entry.1@))
}

/// Writing rows one after the other, a later one replacing an earlier one.
pub open spec fn written<W>(rows: Seq<(Seq<char>, W)>) -> Map<Seq<char>, W>
    decreases rows.len(),
{
    if rows.len() == 0 {
        Map::empty()
    } else {
        written(rows.drop_last()).insert(rows.last().0, rows.last().1)
    }
}

/// The last row with a key is the one that counts.
proof fn last_row_counts<W>(rows: Seq<(Seq<char>, W)>, at: int)
    requires
        0 <= at < rows.len(),
        forall|i: int| at < i < rows.len() ==> (#[trigger] rows[i]).0 != rows[at].0,
    ensures
        written(rows).contains_key(rows[at].0),
        written(rows)[rows[at].0] == rows[at].1,
    decreases rows.len(),
{
    if at < rows.len() - 1 {
        last_row_counts(rows.drop_last(), at);
        assert(rows.last() == rows[rows.len() - 1]);
    }
}

proof fn absent_key<W>(rows: Seq<(Seq<char>, W)>, key: Seq<char>)
    requires
        forall|i: int| 0 <= i < rows.len() ==> (#[trigger] rows[i]).0 != key,
    ensures
        !written(rows).contains_key(key),
    decreases rows.len(),
{
    if rows.len() > 0 {
        absent_key(rows.drop_last(), key);
        assert(rows.last() == rows[rows.len() - 1]);
    }
}

impl<V: View> View for TextMap<V> {
    type V = Map<Seq<char>, V::V>;

    closed spec fn view(&self) -> Map<Seq<char>, V::V> {
        written(rows_of(self.entries@))
    }
}

impl<V: View> TextMap<V> {
    pub fn new() -> (map: TextMap<V>)
        ensures
            map@ == Map::<Seq<char>, V::V>::empty(),
    {
        let map = TextMap { entries: Vec::new() };
        assert(rows_of(map.entries@).len() == 0);
        map
    }

    /// The value that was written last under a key.
    pub fn get(&self, key: &str) -> (value: Option<&V>)
        ensures
            match value {
                Some(value) => self@.contains_key(key@) && self@[key@] == value@,
                None => !self@.contains_key(key@),
            },
    {
        let ghost rows = rows_of(self.entries@);
        let mut at: usize = self.entries.len();
        while at > 0
            invariant
                at <= self.entries@.len(),
                rows == rows_of(self.entries@),
                forall|i: int| at <= i < rows.len() ==> (#[trigger] rows[i]).0 != key@,
            decreases at,
        {
            at = at - 1;
            assert(rows[at as int].0 == self.entries@[at as int].0@);
            if same_text(self.entries[at].0.as_str(), key) {
                proof {
                    last_row_counts(rows, at as int);
                }
                return Some(&self.entries[at].1);
            }
        }
        proof {
            absent_key(rows, key@);
        }
        None
    }

    /// Writes a value under a key; tells whether it replaced another.
    pub fn insert(&mut self, key: String, value: V) -> (replaced: bool)
        ensures
            final(self)@ == old(self)@.insert(key@, value@),
            replaced == old(self)@.contains_key(key@),
    {
        let replaced = self.get(key.as_str()).is_some();
        let ghost before = self.entries@;
        self.entries.push((key, value));
        proof {
            assert(rows_of(self.entries@).drop_last() =~= rows_of(before));
            assert(rows_of(self.entries@).last() == (key@, value@));
        }
        replaced
    }
}

} // verus!

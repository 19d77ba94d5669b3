//! Lists and their views, and reading a text row by row.

use vstd::prelude::*;
use vstd::utf8::{decode_utf8, valid_utf8};

use crate::command::{came_of, succeeded, CommandView, Runs};
use crate::error::{invalid, invalid_input, malformed, refused, seen, Fault, SessionError};
use crate::text::{
    chars_of, decimal, decimal_text, decode_text, parse_u64, same_text, string_of, unsigned_value,
};

verus! {

/// The views of the members of a list.
pub open spec fn views<T: View>(list: Seq<T>) -> Seq<T::V> {
    list.map_values(|member: T| member@)
}

pub proof fn views_of_push<T: View>(list: Seq<T>, member: T)
    ensures
        views(list.push(member)) == views(list).push(member@),
{
    assert(views(list.push(member)) =~= views(list).push(member@));
}

/// What rows lead to, one after the other, starting from what is there already.
pub open spec fn folded<A, B>(
    rows: Seq<B>,
    start: A,
    step: spec_fn(A, B) -> Result<A, Fault>,
) -> Result<A, Fault>
    decreases rows.len(),
{
    if rows.len() == 0 {
        Ok(start)
    } else {
        match step(start, rows[0]) {
            Ok(next) => folded(rows.skip(1), next, step),
            Err(fault) => Err(fault),
        }
    }
}

/// Unfolds one row.
pub proof fn folded_step<A, B>(
    rows: Seq<B>,
    at: int,
    start: A,
    step: spec_fn(A, B) -> Result<A, Fault>,
)
    requires
        0 <= at < rows.len(),
    ensures
        folded(rows.skip(at), start, step) == match step(start, rows[at]) {
            Ok(next) => folded(rows.skip(at + 1), next, step),
            Err(fault) => Err(fault),
        },
{
    assert(rows.skip(at)[0] == rows[at]);
    assert(rows.skip(at).skip(1) =~= rows.skip(at + 1));
}

/// Whether running a program for each row leads to readings: all of them gave an
/// output, or one failed after all before it had given one.
pub open spec fn read_by<B>(
    runs: Runs,
    rows: Seq<B>,
    key: spec_fn(B) -> Seq<char>,
    line: spec_fn(B) -> CommandView,
    readings: Result<Seq<(Seq<char>, Seq<u8>)>, Fault>,
) -> bool {
    match readings {
        Ok(list) => {
            &&& list.len() == rows.len()
            &&& forall|i: int|
                0 <= i < rows.len() ==> (#[trigger] list[i]).0 == key(rows[i]) && came_of(
                    runs,
                    line(rows[i]),
                    Ok::<Seq<u8>, Fault>(list[i].1),
                )
        },
        Err(fault) => exists|at: int|
            0 <= at < rows.len() && came_of(
                runs,
                line(#[trigger] rows[at]),
                Err::<Seq<u8>, Fault>(fault),
            ) && forall|i: int| 0 <= i < at ==> succeeded(runs, line(#[trigger] rows[i])),
    }
}

/// The text in the output of a program.
pub open spec fn text_in(bytes: Seq<u8>, message: Seq<char>) -> Result<Seq<char>, Fault> {
    if valid_utf8(bytes) {
        Ok(decode_utf8(bytes))
    } else {
        malformed(message)
    }
}

pub fn read_text(bytes: &[u8], message: &str) -> (text: Result<Vec<char>, SessionError>)
    ensures
        seen(text) == text_in(bytes@, message@),
{
    match decode_text(bytes) {
        Some(text) => Ok(chars_of(text.as_str())),
        None => invalid(message),
    }
}

/// A canonical number, or why the text is none.
pub open spec fn canonical_number(
    s: Seq<char>,
    not_a_number: Seq<char>,
    not_canonical: Seq<char>,
) -> Result<Seq<char>, Fault> {
    match unsigned_value(s, u64::MAX as int) {
        None => refused(not_a_number),
        Some(value) => if decimal(value as nat) == s {
            Ok(s)
        } else {
            refused(not_canonical)
        },
    }
}

pub fn read_number(s: &[char], not_a_number: &str, not_canonical: &str) -> (number: Result<
    String,
    SessionError,
>)
    ensures
        seen(number) == canonical_number(s@, not_a_number@, not_canonical@),
{
    match parse_u64(s) {
        None => invalid_input(not_a_number),
        Some(value) => {
            let spelled = decimal_text(value);
            let given = string_of(s);
            if !same_text(spelled.as_str(), given.as_str()) {
                return invalid_input(not_canonical);
            }
            Ok(given)
        },
    }
}

/// Outputs of programs, each under a key.
pub struct Readings {
    pub entries: Vec<(String, Vec<u8>)>,
}

impl View for Readings {
    type V = Seq<(Seq<char>, Seq<u8>)>;

    open spec fn view(&self) -> Seq<(Seq<char>, Seq<u8>)> {
        self.entries@.map_values(|entry: (String, Vec<u8>)| (entry.0@, entry.1@))
    }
}

/// The first output under a key.
pub open spec fn reading(readings: Seq<(Seq<char>, Seq<u8>)>, key: Seq<char>) -> Option<Seq<u8>>
    decreases readings.len(),
{
    if readings.len() == 0 {
        None
    } else if readings[0].0 == key {
        Some(readings[0].1)
    } else {
        reading(readings.skip(1), key)
    }
}

impl Readings {
    pub fn new() -> (readings: Readings)
        ensures
            readings@ == Seq::<(Seq<char>, Seq<u8>)>::empty(),
    {
        let readings = Readings { entries: Vec::new() };
        assert(readings@ =~= Seq::<(Seq<char>, Seq<u8>)>::empty());
        readings
    }

    pub fn insert(&mut self, key: String, output: Vec<u8>)
        ensures
            final(self)@ == old(self)@.push((key@, output@)),
    {
        self.entries.push((key, output));
        assert(self@ =~= old(self)@.push((key@, output@)));
    }

    /// The output under a key.
    pub fn get(&self, key: &[char]) -> (output: Option<&Vec<u8>>)
        ensures
            match output {
                Some(output) => reading(self@, key@) == Some(output@),
                None => reading(self@, key@) is None,
            },
    {
        let mut i: usize = 0;
        assert(self@.skip(0) =~= self@);
        while i < self.entries.len()
            invariant
                i <= self.entries@.len(),
                reading(self@, key@) == reading(self@.skip(i as int), key@),
            decreases self.entries.len() - i,
        {
            let entry = &self.entries[i];
            assert(self@.skip(i as int)[0] == (entry.0@, entry.1@));
            assert(self@.skip(i as int).skip(1) =~= self@.skip(i + 1));
            if crate::text::same_chars(chars_of(entry.0.as_str()).as_slice(), key) {
                return Some(&entry.1);
            }
            i = i + 1;
        }
        assert(self@.len() == self.entries@.len());
        None
    }
}

} // verus!

//! Fractions in the texts of programs. They are doubles, which the caller reads
//! and compares; here they are only carried.

use vstd::prelude::*;

use super::domain::Level;

verus! {

/// What a text says as a fraction.
#[derive(Debug, Clone, Copy, PartialEq, Eq, Structural)]
pub enum Number {
    /// The text is not a number.
    NotNumeric,
    /// The number is not finite, or not within the bounds that were asked for.
    OutOfRange,
    Level(Level),
}

/// How texts are read as fractions.
pub type Reader = spec_fn(Seq<char>) -> Number;

/// Whether a function reads texts in a given way.
pub open spec fn reads_by<F: Fn(&str) -> Number>(read: F, reader: Reader) -> bool {
    forall|text: &str, number: Number|
        #[trigger] call_ensures(read, (text,), number) ==> number == reader(text@)
}

/// Whether a function reads every text.
pub open spec fn can_read<F: Fn(&str) -> Number>(read: F) -> bool {
    forall|text: &str| #[trigger] call_requires(read, (text,))
}

/// Which fractions are close enough to one that was asked for.
pub type Nearness = spec_fn(Level) -> bool;

/// Whether a function tells the fractions that are close enough.
pub open spec fn near_by<F: Fn(Level) -> bool>(near: F, nearness: Nearness) -> bool {
    forall|level: Level, close: bool|
        #[trigger] call_ensures(near, (level,), close) ==> close == nearness(level)
}

/// Whether a function tells of every fraction.
pub open spec fn can_tell<F: Fn(Level) -> bool>(near: F) -> bool {
    forall|level: Level| #[trigger] call_requires(near, (level,))
}

/// A fraction that was asked for, as it is written in its command line, and
/// whether it is between zero and one.
pub struct RequestedLevel {
    pub level: Level,
    pub text: String,
    pub normalized: bool,
}

} // verus!

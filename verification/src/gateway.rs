//! The ways in which the counter is changed: a signal byte inside a client
//! message, or a one-shot action. Both end in the same atomic addition.

use crate::counter::value_after;
use crate::counter::wrapped;
use crate::counter::SharedCounter;
use crate::decimal::decimal_text;
use crate::decimal::format_decimal;
use vstd::prelude::*;

verus! {

/// The byte `i`, which asks for an increment.
pub const INCREMENT_SIGNAL: u8 = 105;

/// The byte `d`, which asks for a decrement.
pub const DECREMENT_SIGNAL: u8 = 100;

/// A change of the counter by one.
#[derive(Clone, Copy, Debug, PartialEq, Eq, Structural)]
pub enum Mutation {
    Increment,
    Decrement,
}

/// What a client message asks for: an increment if the increment signal
/// occurs anywhere in it, else a decrement if the decrement signal occurs,
/// else nothing. A message never asks for more than one change.
pub open spec fn requested(message: Seq<u8>) -> Option<Mutation> {
    if message.contains(INCREMENT_SIGNAL) {
        Some(Mutation::Increment)
    } else if message.contains(DECREMENT_SIGNAL) {
        Some(Mutation::Decrement)
    } else {
        None
    }
}

/// Calls `memchr::memchr`. Trusted: the result is the index of the first
/// byte of `haystack` equal to `needle`, and `None` exactly when no byte of
/// it is.
#[verifier::external_body]
fn first_index_of(needle: u8, haystack: &[u8]) -> (found: Option<usize>)
    ensures
        match found {
            Some(i) => i < haystack@.len() && haystack@[i as int] == needle && forall|j: int|
                0 <= j < i ==> haystack@[j] != needle,
            None => !haystack@.contains(needle),
        },
{
    memchr::memchr(needle, haystack)
}

impl Mutation {
    /// The amount by which the mutation changes the counter.
    pub open spec fn amount(self) -> int {
        match self {
            Mutation::Increment => 1,
            Mutation::Decrement => -1,
        }
    }

    /// The amount handed to the counter's addition.
    pub fn delta(self) -> (d: i64)
        ensures
            d == self.amount(),
    {
        match self {
            Mutation::Increment => 1,
            Mutation::Decrement => -1,
        }
    }

    /// Reads a client message. The increment signal is looked for first;
    /// the decrement signal counts only where no increment signal occurs.
    pub fn from_message(message: &[u8]) -> (m: Option<Mutation>)
        ensures
            m == requested(message@),
    {
        if first_index_of(INCREMENT_SIGNAL, message).is_some() {
            Some(Mutation::Increment)
        } else if first_index_of(DECREMENT_SIGNAL, message).is_some() {
            Some(Mutation::Decrement)
        } else {
            None
        }
    }
}

/// The answer to a one-shot action whose addition found `previous` in the
/// counter: the value that it left, and that value as decimal text.
pub fn answer_to(previous: i64, mutation: Mutation) -> (answer: (i64, Vec<u8>))
    ensures
        answer.0 == wrapped(previous + mutation.amount()),
        i64::MIN <= previous + mutation.amount() <= i64::MAX ==> answer.0 == previous
            + mutation.amount(),
        answer.1@ == decimal_text(answer.0 as int),
{
    let value: i64 = value_after(previous, mutation.delta());
    (value, format_decimal(value))
}

/// Performs a one-shot action: one atomic addition to the shared counter,
/// answered by `answer_to` of the value that the addition found. Whatever
/// the other holders of the counter do meanwhile, the text is the decimal
/// text of the returned value.
pub fn apply_now(counter: &SharedCounter, mutation: Mutation) -> (answer: (i64, Vec<u8>))
    ensures
        answer.1@ == decimal_text(answer.0 as int),
{
    let previous: i64 = counter.fetch_add(mutation.delta());
    answer_to(previous, mutation)
}

} // verus!

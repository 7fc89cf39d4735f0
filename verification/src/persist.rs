//! The stored slot: the counter's value as decimal text, read once at
//! startup and overwritten whole at every persistence tick.

use crate::counter::SharedCounter;
use crate::decimal::decimal_text;
use crate::decimal::format_decimal;
use crate::decimal::lemma_decimal_round_trip;
use crate::decimal::parse;
use crate::decimal::parse_decimal;
use vstd::prelude::*;

verus! {

/// Why the counter could not be seeded.
#[derive(Clone, Copy, Debug, PartialEq, Eq, Structural)]
pub enum SeedError {
    /// The slot is there, but its content is not the decimal text of a
    /// signed 64-bit value.
    Unparsable,
}

/// The content of a slot as a sequence of bytes, if the slot is there.
pub open spec fn slot_view(slot: Option<&[u8]>) -> Option<Seq<u8>> {
    match slot {
        Some(text) => Some(text@),
        None => None,
    }
}

/// The value that a slot seeds the counter with: zero where the slot is
/// absent, the parsed value where it holds decimal text, and none where it
/// holds anything else.
pub open spec fn seed_value(slot: Option<Seq<u8>>) -> Option<int> {
    match slot {
        None => Some(0),
        Some(text) => parse_decimal(text),
    }
}

/// Decides the counter's first value from what was found in the slot.
/// An absent slot starts the counter at zero; a slot that does not parse
/// fails the start.
pub fn seed(slot: Option<&[u8]>) -> (first: Result<i64, SeedError>)
    ensures
        match first {
            Ok(value) => seed_value(slot_view(slot)) == Some(value as int),
            Err(e) => seed_value(slot_view(slot)) is None && e == SeedError::Unparsable,
        },
{
    match slot {
        None => Ok(0),
        Some(text) => match parse(text) {
            Some(value) => Ok(value),
            None => Err(SeedError::Unparsable),
        },
    }
}

/// The text to overwrite the slot with at a persistence tick: the decimal
/// text of the counter as read at this moment. Whatever that value is, a
/// later start seeds the counter with it.
pub fn snapshot(counter: &SharedCounter) -> (text: Vec<u8>)
    ensures
        exists|value: i64|
            text@ == decimal_text(value as int) && seed_value(Some(text@)) == Some(value as int),
{
    let value: i64 = counter.load();
    let text = format_decimal(value);
    proof {
        lemma_decimal_round_trip(value);
    }
    text
}

/// Law of the round trip: a slot that holds the text written for `value`
/// seeds the counter with `value`.
pub proof fn lemma_snapshot_seeds_same_value(value: i64)
    ensures
        seed_value(Some(decimal_text(value as int))) == Some(value as int),
{
    lemma_decimal_round_trip(value);
}

} // verus!

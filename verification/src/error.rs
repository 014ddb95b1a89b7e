//! Errors surfaced when decoding persisted rows into events.

use vstd::prelude::*;

verus! {

/// A failure while reading the event store's rows: a recurrence label outside
/// the fixed vocabulary, or an occurrence date that does not parse.
#[derive(Clone, Copy, Debug, PartialEq, Eq, Structural)]
pub enum StoreError {
    UnknownRecurrence,
    MalformedDate,
}

} // verus!

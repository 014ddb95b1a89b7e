//! The recurrence vocabulary: the closed set of cadences an event can carry,
//! and its translation to and from the fixed store labels.

use vstd::prelude::*;
use crate::error::StoreError;
use crate::textnorm::{chars_match, normalize, normalize_spec};

verus! {

/// How an event's occurrence date advances after it fires.
#[derive(Clone, Copy, Debug, PartialEq, Eq, Structural)]
pub enum RecurrencePattern {
    Daily,
    Weekly,
    Monthly,
    Once,
}

/// The store label of each recurrence kind.
pub open spec fn recurrence_label(p: RecurrencePattern) -> Seq<char> {
    match p {
        RecurrencePattern::Daily => "daily"@,
        RecurrencePattern::Weekly => "weekly"@,
        RecurrencePattern::Monthly => "monthly"@,
        RecurrencePattern::Once => "once"@,
    }
}

/// The recurrence kind a store label denotes, if it is in the vocabulary.
pub open spec fn recurrence_of_label(s: Seq<char>) -> Option<RecurrencePattern> {
    if s == "once"@ {
        Some(RecurrencePattern::Once)
    } else if s == "daily"@ {
        Some(RecurrencePattern::Daily)
    } else if s == "weekly"@ {
        Some(RecurrencePattern::Weekly)
    } else if s == "monthly"@ {
        Some(RecurrencePattern::Monthly)
    } else {
        None
    }
}

/// Exact equality of two string slices, by contents.
pub fn str_eq(a: &str, b: &str) -> (r: bool)
    ensures
        r == (a@ == b@),
{
    let sa: String = a.to_owned();
    let sb: String = b.to_owned();
    sa == sb
}

impl RecurrencePattern {
    /// The label under which this kind is persisted.
    pub fn to_store_str(self) -> (r: &'static str)
        ensures
            r@ == recurrence_label(self),
    {
        match self {
            RecurrencePattern::Daily => "daily",
            RecurrencePattern::Weekly => "weekly",
            RecurrencePattern::Monthly => "monthly",
            RecurrencePattern::Once => "once",
        }
    }

    /// Reads a store label back into a recurrence kind; a label outside the
    /// vocabulary is rejected as a store error rather than defaulted.
    pub fn from_store_str(s: &str) -> (r: Result<RecurrencePattern, StoreError>)
        ensures
            match r {
                Ok(p) => recurrence_of_label(s@) == Some(p),
                Err(e) => recurrence_of_label(s@) is None && e == StoreError::UnknownRecurrence,
            },
    {
        if str_eq(s, "once") {
            Ok(RecurrencePattern::Once)
        } else if str_eq(s, "daily") {
            Ok(RecurrencePattern::Daily)
        } else if str_eq(s, "weekly") {
            Ok(RecurrencePattern::Weekly)
        } else if str_eq(s, "monthly") {
            Ok(RecurrencePattern::Monthly)
        } else {
            Err(StoreError::UnknownRecurrence)
        }
    }

    /// Reads a typed menu entry leniently: surrounding whitespace and letter
    /// case are forgiven, and anything outside the vocabulary falls back to
    /// a one-shot event.
    pub fn from_input(s: &str) -> (r: RecurrencePattern)
        ensures
            r == recurrence_of_input(s@),
    {
        let n = normalize(s);
        if chars_match(&n, "daily") {
            RecurrencePattern::Daily
        } else if chars_match(&n, "weekly") {
            RecurrencePattern::Weekly
        } else if chars_match(&n, "monthly") {
            RecurrencePattern::Monthly
        } else {
            RecurrencePattern::Once
        }
    }
}

/// Every label denotes its own kind and nothing else's.
pub proof fn lemma_recurrence_label_roundtrip(p: RecurrencePattern)
    ensures
        recurrence_of_label(recurrence_label(p)) == Some(p),
{
    reveal_strlit("once");
    reveal_strlit("daily");
    reveal_strlit("weekly");
    reveal_strlit("monthly");
    assert("once"@.len() == 4 && "daily"@.len() == 5 && "weekly"@.len() == 6 && "monthly"@.len()
        == 7);
    match p {
        RecurrencePattern::Daily => {
            assert("daily"@ != "once"@);
        },
        RecurrencePattern::Weekly => {
            assert("weekly"@ != "once"@ && "weekly"@ != "daily"@);
        },
        RecurrencePattern::Monthly => {
            assert("monthly"@ != "once"@ && "monthly"@ != "daily"@ && "monthly"@ != "weekly"@);
        },
        RecurrencePattern::Once => {
        },
    }
}

/// The recurrence kind a typed entry denotes, up to surrounding whitespace
/// and letter case; anything else counts as one-shot.
pub open spec fn recurrence_of_input(s: Seq<char>) -> RecurrencePattern {
    let n = normalize_spec(s);
    if n == "daily"@ {
        RecurrencePattern::Daily
    } else if n == "weekly"@ {
        RecurrencePattern::Weekly
    } else if n == "monthly"@ {
        RecurrencePattern::Monthly
    } else {
        RecurrencePattern::Once
    }
}

} // verus!

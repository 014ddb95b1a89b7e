//! The client menu's operation vocabulary.

use vstd::prelude::*;
use crate::textnorm::{chars_match, normalize, normalize_spec};

verus! {

/// What the interactive client can be asked to do.
#[derive(Clone, Copy, Debug, PartialEq, Eq, Structural)]
pub enum Operation {
    Today,
    Create,
    Update,
    Delete,
}

/// The menu label of each operation.
pub open spec fn operation_label(op: Operation) -> Seq<char> {
    match op {
        Operation::Today => "today"@,
        Operation::Create => "create"@,
        Operation::Update => "update"@,
        Operation::Delete => "delete"@,
    }
}

/// The operation a typed entry denotes, up to surrounding whitespace and
/// letter case; anything else is no operation.
pub open spec fn operation_of_input(s: Seq<char>) -> Option<Operation> {
    let n = normalize_spec(s);
    if n == "today"@ {
        Some(Operation::Today)
    } else if n == "create"@ {
        Some(Operation::Create)
    } else if n == "update"@ {
        Some(Operation::Update)
    } else if n == "delete"@ {
        Some(Operation::Delete)
    } else {
        None
    }
}

impl Operation {
    /// The label under which this operation is offered.
    pub fn to_menu_str(self) -> (r: &'static str)
        ensures
            r@ == operation_label(self),
    {
        match self {
            Operation::Today => "today",
            Operation::Create => "create",
            Operation::Update => "update",
            Operation::Delete => "delete",
        }
    }

    /// Reads a typed menu entry leniently; an entry outside the vocabulary
    /// is no operation rather than a fault.
    pub fn from_input(s: &str) -> (r: Option<Operation>)
        ensures
            r == operation_of_input(s@),
    {
        let n = normalize(s);
        if chars_match(&n, "today") {
            Some(Operation::Today)
        } else if chars_match(&n, "create") {
            Some(Operation::Create)
        } else if chars_match(&n, "update") {
            Some(Operation::Update)
        } else if chars_match(&n, "delete") {
            Some(Operation::Delete)
        } else {
            None
        }
    }
}

} // verus!

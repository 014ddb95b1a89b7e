//! The reminder itself: a stored row lifted into typed form.

use vstd::prelude::*;
use crate::datetime::DateTime;
use crate::recurrence::RecurrencePattern;

verus! {

/// One reminder. `date` is the next moment it should fire; a set
/// `deleted_at` marks it soft-deleted and bars it from scheduling.
#[derive(Debug)]
pub struct Event {
    pub id: i32,
    pub name: String,
    pub message: String,
    pub recurrence_pattern: RecurrencePattern,
    pub date: DateTime,
    pub deleted_at: Option<DateTime>,
}

impl Event {
    /// Well-formed: the occurrence date is a real timestamp with room for a
    /// further year of advancement, and so is the deletion stamp if present.
    pub open spec fn wf(self) -> bool {
        &&& self.date.wf()
        &&& self.date.year < 9999
        &&& match self.deleted_at {
            Some(d) => d.wf(),
            None => true,
        }
    }

    /// An exact copy.
    pub fn duplicate(&self) -> (r: Event)
        ensures
            r == *self,
    {
        Event {
            id: self.id,
            name: self.name.clone(),
            message: self.message.clone(),
            recurrence_pattern: self.recurrence_pattern,
            date: self.date,
            deleted_at: self.deleted_at,
        }
    }
}

/// A batch of reminders, as handed back by a day query.
pub struct EventList(pub Vec<Event>);

} // verus!

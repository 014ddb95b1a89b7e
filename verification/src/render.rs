//! The text under which events are shown to the user: one block per event,
//! with its date at minute resolution.

use vstd::prelude::*;
use vstd::string::*;
use crate::datetime::DateTime;
use crate::event::{Event, EventList};
use crate::recurrence::recurrence_label;
use crate::store::{pad2, pad4, push_pad2, push_pad4};

verus! {

/// A date as shown to the user: `YYYY-MM-DD HH:MM`.
pub open spec fn display_date_spec(d: DateTime) -> Seq<char> {
    pad4(d.year as int) + seq!['-'] + pad2(d.month as int) + seq!['-'] + pad2(d.day as int) + seq![
        ' ',
    ] + pad2(d.hour as int) + seq![':'] + pad2(d.minute as int)
}

/// An event as shown to the user: its name, its date, its cadence.
pub open spec fn render_event_spec(e: Event) -> Seq<char> {
    "Event: "@ + e.name@ + "\nAt: "@ + display_date_spec(e.date) + "\nRecurrence: "@
        + recurrence_label(e.recurrence_pattern)
}

/// A day's batch as shown to the user: the events' blocks separated by a
/// blank line, or a fixed line when the day holds nothing.
pub open spec fn render_list_blocks(evs: Seq<Event>) -> Seq<char>
    decreases evs.len(),
{
    if evs.len() == 0 {
        Seq::empty()
    } else if evs.len() == 1 {
        render_event_spec(evs[0])
    } else {
        render_list_blocks(evs.drop_last()) + "\n\n"@ + render_event_spec(evs.last())
    }
}

pub open spec fn render_list_spec(evs: Seq<Event>) -> Seq<char> {
    if evs.len() == 0 {
        "No events today"@
    } else {
        render_list_blocks(evs)
    }
}

/// Writes the user-facing date of a timestamp.
pub fn display_date(d: &DateTime) -> (r: String)
    requires
        d.wf(),
    ensures
        r@ == display_date_spec(*d),
{
    let mut s = String::new();
    push_pad4(&mut s, d.year);
    s.append("-");
    push_pad2(&mut s, d.month);
    s.append("-");
    push_pad2(&mut s, d.day);
    s.append(" ");
    push_pad2(&mut s, d.hour);
    s.append(":");
    push_pad2(&mut s, d.minute);
    proof {
        reveal_strlit("-");
        reveal_strlit(" ");
        reveal_strlit(":");
        assert(s@ =~= display_date_spec(*d));
    }
    s
}

impl Event {
    /// Writes this event's user-facing block.
    pub fn render(&self) -> (r: String)
        requires
            self.date.wf(),
        ensures
            r@ == render_event_spec(*self),
    {
        let mut s = String::from_str("Event: ");
        s.append(self.name.as_str());
        s.append("\nAt: ");
        let date_text = display_date(&self.date);
        s.append(date_text.as_str());
        s.append("\nRecurrence: ");
        s.append(self.recurrence_pattern.to_store_str());
        proof {
            assert(s@ =~= render_event_spec(*self));
        }
        s
    }
}

impl EventList {
    /// Writes the whole batch's user-facing text.
    pub fn render(&self) -> (r: String)
        requires
            forall|i: int| 0 <= i < self.0@.len() ==> (#[trigger] self.0@[i]).date.wf(),
        ensures
            r@ == render_list_spec(self.0@),
    {
        if self.0.len() == 0 {
            return String::from_str("No events today");
        }
        let mut s = String::new();
        let mut i: usize = 0;
        while i < self.0.len()
            invariant
                i <= self.0@.len(),
                self.0@.len() > 0,
                forall|j: int| 0 <= j < self.0@.len() ==> (#[trigger] self.0@[j]).date.wf(),
                s@ == render_list_blocks(self.0@.subrange(0, i as int)),
            decreases self.0@.len() - i,
        {
            if i > 0 {
                s.append("\n\n");
            }
            let block = self.0[i].render();
            s.append(block.as_str());
            proof {
                let pre = self.0@.subrange(0, i as int + 1);
                assert(pre.drop_last() =~= self.0@.subrange(0, i as int));
                assert(pre.last() == self.0@[i as int]);
                if i == 0 {
                    assert(s@ =~= render_list_blocks(pre));
                } else {
                    assert(s@ =~= render_list_blocks(pre));
                }
            }
            i = i + 1;
        }
        proof {
            assert(self.0@.subrange(0, self.0@.len() as int) =~= self.0@);
        }
        s
    }
}

} // verus!

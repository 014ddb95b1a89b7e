//! The scheduling engine: which events are due at a given minute, how a
//! recurring event's date advances once it has fired, and what one tick of
//! the dispatch loop does with the notifier's outcomes.

use vstd::prelude::*;
use crate::datetime::{
    DateTime, days_in_month, succ_date, spec_plus_days, spec_plus_minutes, same_minute, same_day,
    next_day, plus_days, plus_minutes,
};
use crate::event::Event;
use crate::recurrence::RecurrencePattern;

verus! {

/// The next occurrence of a recurring event, one cadence step after `d`.
///
/// Monthly advancement keeps the day of month and steps the month, wrapping
/// December into January of the next year. When the target month is too
/// short for that day, the date is deliberately left unchanged rather than
/// clamped, so such an event stays put until a long enough month recurs;
/// the daily listing still shows it, and a maintainer can move it by hand.
pub open spec fn next_occurrence_spec(d: DateTime, p: RecurrencePattern) -> DateTime {
    match p {
        RecurrencePattern::Daily => succ_date(d),
        RecurrencePattern::Weekly => spec_plus_days(d, 7),
        RecurrencePattern::Monthly => next_month_date(d),
        RecurrencePattern::Once => d,
    }
}

/// Monthly advancement: month + 1 (December wraps to January, year + 1),
/// same day of month if the target month has it, otherwise `d` unchanged.
pub open spec fn next_month_date(d: DateTime) -> DateTime {
    let ny: int = if d.month == 12 {
        d.year + 1
    } else {
        d.year as int
    };
    let nm: int = if d.month == 12 {
        1
    } else {
        d.month + 1
    };
    if d.day as int <= days_in_month(ny, nm) {
        DateTime { year: ny as u32, month: nm as u32, ..d }
    } else {
        d
    }
}

/// Advancing a date by whole days never touches the time of day.
pub proof fn lemma_plus_days_preserves_time(d: DateTime, n: nat)
    ensures
        spec_plus_days(d, n).hour == d.hour,
        spec_plus_days(d, n).minute == d.minute,
        spec_plus_days(d, n).second == d.second,
    decreases n,
{
    if n > 0 {
        lemma_plus_days_preserves_time(d, (n - 1) as nat);
    }
}

/// The recurrence calculator: the date at which a recurring event fires
/// next, given the date at which it just fired. Never called for one-shot
/// events; advancing those is a caller error, not a runtime condition.
pub fn next_occurrence(date: &DateTime, pattern: RecurrencePattern) -> (r: DateTime)
    requires
        date.wf(),
        date.year < 9999,
        pattern != RecurrencePattern::Once,
    ensures
        r == next_occurrence_spec(*date, pattern),
        r.wf(),
        r.hour == date.hour && r.minute == date.minute && r.second == date.second,
        pattern == RecurrencePattern::Daily ==> r == succ_date(*date),
        pattern == RecurrencePattern::Weekly ==> r == spec_plus_days(*date, 7),
        pattern == RecurrencePattern::Monthly ==> {
            let ny: int = if date.month == 12 { date.year + 1 } else { date.year as int };
            let nm: int = if date.month == 12 { 1 } else { date.month + 1 };
            if date.day as int <= days_in_month(ny, nm) {
                r.year == ny && r.month == nm && r.day == date.day
            } else {
                r == *date
            }
        },
{
    match pattern {
        RecurrencePattern::Daily => {
            let r = next_day(date);
            proof {
                lemma_plus_days_preserves_time(*date, 1);
            }
            r
        },
        RecurrencePattern::Weekly => {
            let r = plus_days(date, 7);
            proof {
                lemma_plus_days_preserves_time(*date, 7);
            }
            r
        },
        RecurrencePattern::Monthly => {
            let ny: u32 = if date.month == 12 {
                date.year + 1
            } else {
                date.year
            };
            let nm: u32 = if date.month == 12 {
                1
            } else {
                date.month + 1
            };
            if date.day <= crate::datetime::days_in_month_of(ny, nm) {
                DateTime { year: ny, month: nm, ..*date }
            } else {
                *date
            }
        },
        RecurrencePattern::Once => {
            // Excluded by the precondition; any arm satisfies the contract
            // vacuously, but the calculator never alters a one-shot date.
            *date
        },
    }
}

/// Whether `e` is due at minute `now`: not soft-deleted, and its occurrence
/// date matches `now` or `now` plus the ten-minute pre-alert lead, both at
/// minute resolution.
pub open spec fn is_due(e: Event, now: DateTime) -> bool {
    &&& e.deleted_at is None
    &&& (same_minute(e.date, now) || same_minute(e.date, spec_plus_minutes(now, 10)))
}

/// The due-event selector: the events due at minute `now`, in store order.
/// Nothing due yields the empty batch, not an error.
pub fn due_events(events: &Vec<Event>, now: &DateTime) -> (r: Vec<Event>)
    requires
        now.wf(),
        now.year < 9999,
    ensures
        r@ == events@.filter(|e: Event| is_due(e, *now)),
{
    let lead = plus_minutes(now, 10);
    let mut r: Vec<Event> = Vec::new();
    let mut i: usize = 0;
    proof {
        assert(events@.subrange(0, 0).filter(|e: Event| is_due(e, *now)) =~= Seq::<
            Event,
        >::empty()) by {
            reveal(Seq::filter);
        }
    }
    while i < events.len()
        invariant
            i <= events.len(),
            now.wf(),
            now.year < 9999,
            lead == spec_plus_minutes(*now, 10),
            r@ == events@.subrange(0, i as int).filter(|e: Event| is_due(e, *now)),
        decreases events.len() - i,
    {
        let e = &events[i];
        let due = e.deleted_at.is_none() && (e.date.eq_minute(now) || e.date.eq_minute(&lead));
        if due {
            r.push(e.duplicate());
        }
        proof {
            reveal(Seq::filter);
            assert(events@.subrange(0, i + 1 as int).drop_last() =~= events@.subrange(
                0,
                i as int,
            ));
            assert(events@.subrange(0, i + 1 as int).last() == events@[i as int]);
        }
        i = i + 1;
    }
    proof {
        assert(events@.subrange(0, events@.len() as int) =~= events@);
    }
    r
}

/// An event with a non-null deletion stamp is never selected, whatever its
/// date.
pub proof fn lemma_selector_excludes_deleted(events: Seq<Event>, now: DateTime, j: int)
    requires
        0 <= j < events.filter(|e: Event| is_due(e, now)).len(),
    ensures
        events.filter(|e: Event| is_due(e, now))[j].deleted_at is None,
{
    broadcast use vstd::seq_lib::group_filter_ensures;

}

/// Whether `e` belongs in a listing of day `today`: not soft-deleted, due
/// some time that day.
pub open spec fn on_day(e: Event, today: DateTime) -> bool {
    e.deleted_at is None && same_day(e.date, today)
}

/// The events that fall on the day of `today`, in store order: the client's
/// daily listing.
pub fn current_day_events(events: &Vec<Event>, today: &DateTime) -> (r: Vec<Event>)
    ensures
        r@ == events@.filter(|e: Event| on_day(e, *today)),
{
    let mut r: Vec<Event> = Vec::new();
    let mut i: usize = 0;
    proof {
        assert(events@.subrange(0, 0).filter(|e: Event| on_day(e, *today)) =~= Seq::<
            Event,
        >::empty()) by {
            reveal(Seq::filter);
        }
    }
    while i < events.len()
        invariant
            i <= events.len(),
            r@ == events@.subrange(0, i as int).filter(|e: Event| on_day(e, *today)),
        decreases events.len() - i,
    {
        let e = &events[i];
        if e.deleted_at.is_none() && e.date.eq_day(today) {
            r.push(e.duplicate());
        }
        proof {
            reveal(Seq::filter);
            assert(events@.subrange(0, i + 1 as int).drop_last() =~= events@.subrange(
                0,
                i as int,
            ));
            assert(events@.subrange(0, i + 1 as int).last() == events@[i as int]);
        }
        i = i + 1;
    }
    proof {
        assert(events@.subrange(0, events@.len() as int) =~= events@);
    }
    r
}

/// What an alert for `e` carries: the event's name as its title, the
/// event's message as its body. The alert sound is a host configuration
/// detail, not part of the content.
pub fn notification_content(e: &Event) -> (r: (String, String))
    ensures
        r.0 == e.name,
        r.1 == e.message,
{
    (e.name.clone(), e.message.clone())
}

/// What `e` looks like once it has fired: recurring events carry their next
/// occurrence date, one-shot events are untouched.
pub open spec fn advanced_event(e: Event) -> Event {
    if e.recurrence_pattern == RecurrencePattern::Once {
        e
    } else {
        Event { date: next_occurrence_spec(e.date, e.recurrence_pattern), ..e }
    }
}

/// Builds the fired form of `e`: its date advanced by one cadence step if it
/// recurs, untouched if it is one-shot.
pub fn advance_after_fire(e: &Event) -> (r: Event)
    requires
        e.wf(),
    ensures
        r == advanced_event(*e),
        r.date.wf(),
{
    match e.recurrence_pattern {
        RecurrencePattern::Once => e.duplicate(),
        _ => Event {
            id: e.id,
            name: e.name.clone(),
            message: e.message.clone(),
            recurrence_pattern: e.recurrence_pattern,
            date: next_occurrence(&e.date, e.recurrence_pattern),
            deleted_at: e.deleted_at,
        },
    }
}

/// What the tick loop must do after attempting one due event's notification.
#[derive(Clone, Copy, Debug, PartialEq, Eq, Structural)]
pub enum TickStep {
    /// The notifier failed: stop the batch; nothing is persisted for this or
    /// any later event of the tick.
    AbortBatch,
    /// Notified, one-shot: nothing to persist, go on with the batch.
    NoChange,
    /// Notified, recurring: persist this date for the event, go on.
    Advance(DateTime),
}

/// The per-event dispatch rule: notification sent and occurrence advanced
/// are inseparable, and a failed notification aborts the whole batch, so a
/// recurring event can never fire twice for one due window.
pub fn tick_step(e: &Event, notified: bool) -> (r: TickStep)
    requires
        e.wf(),
    ensures
        !notified ==> r == TickStep::AbortBatch,
        (notified && e.recurrence_pattern == RecurrencePattern::Once) ==> r == TickStep::NoChange,
        (notified && e.recurrence_pattern != RecurrencePattern::Once) ==> r == TickStep::Advance(
            next_occurrence_spec(e.date, e.recurrence_pattern),
        ),
        r matches TickStep::Advance(d) ==> d.wf(),
{
    if !notified {
        TickStep::AbortBatch
    } else {
        match e.recurrence_pattern {
            RecurrencePattern::Once => TickStep::NoChange,
            _ => TickStep::Advance(next_occurrence(&e.date, e.recurrence_pattern)),
        }
    }
}

/// The stored events after one tick at minute `now`, when the notifier
/// answered the batch's successive due events with `oks`: due events are
/// taken in store order; a failed (or missing) outcome leaves the rest of
/// the batch untouched; a notified recurring event's date advances.
pub open spec fn tick_events_spec(events: Seq<Event>, now: DateTime, oks: Seq<bool>) -> Seq<Event>
    decreases events.len(),
{
    if events.len() == 0 {
        Seq::empty()
    } else if !is_due(events[0], now) {
        seq![events[0]] + tick_events_spec(events.drop_first(), now, oks)
    } else if oks.len() == 0 || !oks[0] {
        events
    } else {
        seq![advanced_event(events[0])] + tick_events_spec(
            events.drop_first(),
            now,
            oks.drop_first(),
        )
    }
}

/// The ids notified during that tick, in the order the alerts went out.
pub open spec fn tick_notified_spec(events: Seq<Event>, now: DateTime, oks: Seq<bool>) -> Seq<i32>
    decreases events.len(),
{
    if events.len() == 0 {
        Seq::empty()
    } else if !is_due(events[0], now) {
        tick_notified_spec(events.drop_first(), now, oks)
    } else if oks.len() == 0 || !oks[0] {
        Seq::empty()
    } else {
        seq![events[0].id] + tick_notified_spec(events.drop_first(), now, oks.drop_first())
    }
}

/// Whether that tick was cut short by a notifier failure.
pub open spec fn tick_aborted_spec(events: Seq<Event>, now: DateTime, oks: Seq<bool>) -> bool
    decreases events.len(),
{
    if events.len() == 0 {
        false
    } else if !is_due(events[0], now) {
        tick_aborted_spec(events.drop_first(), now, oks)
    } else if oks.len() == 0 || !oks[0] {
        true
    } else {
        tick_aborted_spec(events.drop_first(), now, oks.drop_first())
    }
}

/// A tick neither adds nor drops stored events; it only rewrites dates.
pub proof fn lemma_tick_preserves_count(events: Seq<Event>, now: DateTime, oks: Seq<bool>)
    ensures
        tick_events_spec(events, now, oks).len() == events.len(),
    decreases events.len(),
{
    if events.len() > 0 && is_due(events[0], now) && oks.len() > 0 && oks[0] {
        lemma_tick_preserves_count(events.drop_first(), now, oks.drop_first());
    } else if events.len() > 0 && !is_due(events[0], now) {
        lemma_tick_preserves_count(events.drop_first(), now, oks);
    }
}

/// A one-shot event is never mutated by a tick, however often it fires.
pub proof fn lemma_once_never_advanced(events: Seq<Event>, now: DateTime, oks: Seq<bool>, j: int)
    requires
        0 <= j < events.len(),
        events[j].recurrence_pattern == RecurrencePattern::Once,
    ensures
        tick_events_spec(events, now, oks)[j] == events[j],
    decreases events.len(),
{
    lemma_tick_preserves_count(events, now, oks);
    if !is_due(events[0], now) {
        if j > 0 {
            lemma_once_never_advanced(events.drop_first(), now, oks, j - 1);
        }
    } else if oks.len() == 0 || !oks[0] {
    } else {
        if j > 0 {
            lemma_once_never_advanced(events.drop_first(), now, oks.drop_first(), j - 1);
        }
    }
}

/// What one tick's dispatch produced.
pub struct TickReport {
    /// Every stored event, in store order, with fired recurring dates advanced.
    pub events: Vec<Event>,
    /// The ids that were notified, in dispatch order.
    pub notified: Vec<i32>,
    /// True when a notifier failure cut the batch short.
    pub aborted: bool,
}

fn run_tick_from(events: &Vec<Event>, i: usize, now: &DateTime, oks: &Vec<bool>, k: usize) -> (r: (
    Vec<Event>,
    Vec<i32>,
    bool,
))
    requires
        now.wf(),
        now.year < 9999,
        forall|j: int| 0 <= j < events@.len() ==> (#[trigger] events@[j]).wf(),
        i <= events@.len(),
        k <= oks@.len(),
    ensures
        r.0@ == tick_events_spec(events@.skip(i as int), *now, oks@.skip(k as int)),
        r.1@ == tick_notified_spec(events@.skip(i as int), *now, oks@.skip(k as int)),
        r.2 == tick_aborted_spec(events@.skip(i as int), *now, oks@.skip(k as int)),
    decreases events@.len() - i,
{
    if i == events.len() {
        proof {
            assert(events@.skip(i as int) =~= Seq::<Event>::empty());
        }
        (Vec::new(), Vec::new(), false)
    } else {
        let e = &events[i];
        let lead = plus_minutes(now, 10);
        let due = e.deleted_at.is_none() && (e.date.eq_minute(now) || e.date.eq_minute(&lead));
        proof {
            assert(events@.skip(i as int)[0] == events@[i as int]);
            assert(events@.skip(i as int).drop_first() =~= events@.skip(i as int + 1));
            if k < oks@.len() {
                assert(oks@.skip(k as int).drop_first() =~= oks@.skip(k as int + 1));
            }
        }
        if !due {
            let (mut evs, ids, ab) = run_tick_from(events, i + 1, now, oks, k);
            evs.insert(0, e.duplicate());
            proof {
                assert(evs@ =~= seq![events@[i as int]] + tick_events_spec(
                    events@.skip(i as int + 1),
                    *now,
                    oks@.skip(k as int),
                ));
            }
            (evs, ids, ab)
        } else if k == oks.len() || !oks[k] {
            let mut evs: Vec<Event> = Vec::new();
            let mut j: usize = i;
            while j < events.len()
                invariant
                    i <= j <= events@.len(),
                    evs@ == events@.subrange(i as int, j as int),
                decreases events@.len() - j,
            {
                evs.push(events[j].duplicate());
                proof {
                    assert(evs@ =~= events@.subrange(i as int, j as int + 1));
                }
                j = j + 1;
            }
            proof {
                assert(events@.subrange(i as int, events@.len() as int) =~= events@.skip(i as int));
            }
            (evs, Vec::new(), true)
        } else {
            let adv = advance_after_fire(e);
            let (mut evs, mut ids, ab) = run_tick_from(events, i + 1, now, oks, k + 1);
            evs.insert(0, adv);
            ids.insert(0, e.id);
            proof {
                assert(evs@ =~= seq![advanced_event(events@[i as int])] + tick_events_spec(
                    events@.skip(i as int + 1),
                    *now,
                    oks@.skip(k as int + 1),
                ));
                assert(ids@ =~= seq![events@[i as int].id] + tick_notified_spec(
                    events@.skip(i as int + 1),
                    *now,
                    oks@.skip(k as int + 1),
                ));
            }
            (evs, ids, ab)
        }
    }
}

/// One whole tick over the stored events, with the notifier's successive
/// outcomes injected as plain booleans (one per due event, in store order):
/// selects the due events, dispatches in order until the first failure, and
/// advances each notified recurring event's date exactly once.
pub fn run_tick(events: &Vec<Event>, now: &DateTime, oks: &Vec<bool>) -> (r: TickReport)
    requires
        now.wf(),
        now.year < 9999,
        forall|j: int| 0 <= j < events@.len() ==> (#[trigger] events@[j]).wf(),
    ensures
        r.events@ == tick_events_spec(events@, *now, oks@),
        r.notified@ == tick_notified_spec(events@, *now, oks@),
        r.aborted == tick_aborted_spec(events@, *now, oks@),
{
    let (evs, ids, ab) = run_tick_from(events, 0, now, oks, 0);
    proof {
        assert(events@.skip(0) =~= events@);
        assert(oks@.skip(0) =~= oks@);
    }
    TickReport { events: evs, notified: ids, aborted: ab }
}

/// An event whose occurrence minute matches neither `now` nor `now` plus
/// the ten-minute lead is never selected; a batch of only such events is
/// empty.
pub proof fn lemma_selector_empty_without_minute_match(events: Seq<Event>, now: DateTime)
    requires
        forall|i: int|
            0 <= i < events.len() ==> !same_minute((#[trigger] events[i]).date, now)
                && !same_minute(events[i].date, spec_plus_minutes(now, 10)),
    ensures
        events.filter(|e: Event| is_due(e, now)) =~= Seq::<Event>::empty(),
    decreases events.len(),
{
    reveal(Seq::filter);
    if events.len() > 0 {
        assert(forall|i: int|
            0 <= i < events.drop_last().len() ==> !same_minute(
                (#[trigger] events.drop_last()[i]).date,
                now,
            ) && !same_minute(events.drop_last()[i].date, spec_plus_minutes(now, 10)));
        lemma_selector_empty_without_minute_match(events.drop_last(), now);
    }
}

} // verus!

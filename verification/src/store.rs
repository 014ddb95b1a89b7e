//! The store boundary: the text encodings under which dates travel to and
//! from the persisted event table, and the decoding of raw rows into events.
//!
//! Occurrence dates are persisted as `YYYY-MM-DDTHH:MM:SS`, local time. The
//! interactive client collects dates as `dd/mm/yyyy hh:mm`.

use vstd::prelude::*;
use vstd::string::*;
use crate::datetime::{DateTime, days_in_month};
use crate::error::StoreError;
use crate::event::Event;
use crate::recurrence::{RecurrencePattern, recurrence_of_label};

verus! {

pub open spec fn is_digit(c: char) -> bool {
    '0' <= c && c <= '9'
}

pub open spec fn digit_val(c: char) -> int {
    c as int - 48
}

pub open spec fn digit_char(d: int) -> char {
    if d == 0 {
        '0'
    } else if d == 1 {
        '1'
    } else if d == 2 {
        '2'
    } else if d == 3 {
        '3'
    } else if d == 4 {
        '4'
    } else if d == 5 {
        '5'
    } else if d == 6 {
        '6'
    } else if d == 7 {
        '7'
    } else if d == 8 {
        '8'
    } else {
        '9'
    }
}

/// `n` written as exactly two decimal digits.
pub open spec fn pad2(n: int) -> Seq<char> {
    seq![digit_char(n / 10), digit_char(n % 10)]
}

/// `n` written as exactly four decimal digits.
pub open spec fn pad4(n: int) -> Seq<char> {
    seq![
        digit_char(n / 1000),
        digit_char((n / 100) % 10),
        digit_char((n / 10) % 10),
        digit_char(n % 10),
    ]
}

/// The text under which a timestamp is persisted.
pub open spec fn store_text_of(d: DateTime) -> Seq<char> {
    pad4(d.year as int) + seq!['-'] + pad2(d.month as int) + seq!['-'] + pad2(d.day as int)
        + seq!['T'] + pad2(d.hour as int) + seq![':'] + pad2(d.minute as int) + seq![':'] + pad2(
        d.second as int,
    )
}

fn digit_str(n: u32) -> (r: &'static str)
    requires
        n < 10,
    ensures
        r@ =~= seq![digit_char(n as int)],
{
    proof {
        reveal_strlit("0");
        reveal_strlit("1");
        reveal_strlit("2");
        reveal_strlit("3");
        reveal_strlit("4");
        reveal_strlit("5");
        reveal_strlit("6");
        reveal_strlit("7");
        reveal_strlit("8");
        reveal_strlit("9");
    }
    match n {
        0 => "0",
        1 => "1",
        2 => "2",
        3 => "3",
        4 => "4",
        5 => "5",
        6 => "6",
        7 => "7",
        8 => "8",
        _ => "9",
    }
}

pub(crate) fn push_pad2(s: &mut String, n: u32)
    requires
        n < 100,
    ensures
        final(s)@ == old(s)@ + pad2(n as int),
{
    s.append(digit_str(n / 10));
    s.append(digit_str(n % 10));
    proof {
        assert(s@ =~= old(s)@ + pad2(n as int));
    }
}

pub(crate) fn push_pad4(s: &mut String, n: u32)
    requires
        n < 10000,
    ensures
        final(s)@ == old(s)@ + pad4(n as int),
{
    s.append(digit_str(n / 1000));
    s.append(digit_str((n / 100) % 10));
    s.append(digit_str((n / 10) % 10));
    s.append(digit_str(n % 10));
    proof {
        assert(s@ =~= old(s)@ + pad4(n as int));
    }
}

/// Writes a timestamp in the store's date encoding.
pub fn to_store_text(d: &DateTime) -> (r: String)
    requires
        d.wf(),
    ensures
        r@ == store_text_of(*d),
{
    let mut s = String::new();
    push_pad4(&mut s, d.year);
    s.append("-");
    push_pad2(&mut s, d.month);
    s.append("-");
    push_pad2(&mut s, d.day);
    s.append("T");
    push_pad2(&mut s, d.hour);
    s.append(":");
    push_pad2(&mut s, d.minute);
    s.append(":");
    push_pad2(&mut s, d.second);
    proof {
        reveal_strlit("-");
        reveal_strlit("T");
        reveal_strlit(":");
        assert(s@ =~= store_text_of(*d));
    }
    s
}

/// The shape of a persisted date: `YYYY-MM-DDTHH:MM:SS`.
pub open spec fn store_text_shape(s: Seq<char>) -> bool {
    &&& s.len() == 19
    &&& is_digit(s[0]) && is_digit(s[1]) && is_digit(s[2]) && is_digit(s[3])
    &&& s[4] == '-' && is_digit(s[5]) && is_digit(s[6])
    &&& s[7] == '-' && is_digit(s[8]) && is_digit(s[9])
    &&& s[10] == 'T' && is_digit(s[11]) && is_digit(s[12])
    &&& s[13] == ':' && is_digit(s[14]) && is_digit(s[15])
    &&& s[16] == ':' && is_digit(s[17]) && is_digit(s[18])
}

/// The timestamp a persisted date text denotes, when it is well shaped and
/// names a real calendar date and time of day.
pub open spec fn store_date_of(s: Seq<char>) -> Option<DateTime> {
    if store_text_shape(s) {
        let y = digit_val(s[0]) * 1000 + digit_val(s[1]) * 100 + digit_val(s[2]) * 10 + digit_val(
            s[3],
        );
        let mo = digit_val(s[5]) * 10 + digit_val(s[6]);
        let dy = digit_val(s[8]) * 10 + digit_val(s[9]);
        let h = digit_val(s[11]) * 10 + digit_val(s[12]);
        let mi = digit_val(s[14]) * 10 + digit_val(s[15]);
        let sec = digit_val(s[17]) * 10 + digit_val(s[18]);
        if 1 <= y <= 9999 && 1 <= mo <= 12 && 1 <= dy <= days_in_month(y, mo) && h < 24 && mi < 60
            && sec < 60 {
            Some(
                DateTime {
                    year: y as u32,
                    month: mo as u32,
                    day: dy as u32,
                    hour: h as u32,
                    minute: mi as u32,
                    second: sec as u32,
                },
            )
        } else {
            None
        }
    } else {
        None
    }
}

/// The shape of the client's date entry: `dd/mm/yyyy hh:mm`.
pub open spec fn input_text_shape(s: Seq<char>) -> bool {
    &&& s.len() == 16
    &&& is_digit(s[0]) && is_digit(s[1])
    &&& s[2] == '/' && is_digit(s[3]) && is_digit(s[4])
    &&& s[5] == '/' && is_digit(s[6]) && is_digit(s[7]) && is_digit(s[8]) && is_digit(s[9])
    &&& s[10] == ' ' && is_digit(s[11]) && is_digit(s[12])
    &&& s[13] == ':' && is_digit(s[14]) && is_digit(s[15])
}

/// The timestamp a client date entry denotes, at second zero, when it is
/// well shaped and names a real calendar date and time of day.
pub open spec fn input_date_of(s: Seq<char>) -> Option<DateTime> {
    if input_text_shape(s) {
        let dy = digit_val(s[0]) * 10 + digit_val(s[1]);
        let mo = digit_val(s[3]) * 10 + digit_val(s[4]);
        let y = digit_val(s[6]) * 1000 + digit_val(s[7]) * 100 + digit_val(s[8]) * 10 + digit_val(
            s[9],
        );
        let h = digit_val(s[11]) * 10 + digit_val(s[12]);
        let mi = digit_val(s[14]) * 10 + digit_val(s[15]);
        if 1 <= y <= 9999 && 1 <= mo <= 12 && 1 <= dy <= days_in_month(y, mo) && h < 24 && mi
            < 60 {
            Some(
                DateTime {
                    year: y as u32,
                    month: mo as u32,
                    day: dy as u32,
                    hour: h as u32,
                    minute: mi as u32,
                    second: 0,
                },
            )
        } else {
            None
        }
    } else {
        None
    }
}

/// The decimal value at position `i`, when a digit stands there.
fn digit_at(s: &str, i: usize) -> (r: Option<u32>)
    requires
        i < s@.len(),
    ensures
        match r {
            Some(v) => is_digit(s@[i as int]) && v as int == digit_val(s@[i as int]) && v < 10,
            None => !is_digit(s@[i as int]),
        },
{
    let c = s.get_char(i);
    if '0' <= c && c <= '9' {
        Some(c as u32 - 48)
    } else {
        None
    }
}

fn sep_at(s: &str, i: usize, sep: char) -> (r: bool)
    requires
        i < s@.len(),
    ensures
        r == (s@[i as int] == sep),
{
    s.get_char(i) == sep
}

fn two_digits_at(s: &str, i: usize) -> (r: Option<u32>)
    requires
        i < 1000,
        i + 1 < s@.len(),
    ensures
        match r {
            Some(v) => is_digit(s@[i as int]) && is_digit(s@[i as int + 1]) && v < 100 && v as int
                == digit_val(s@[i as int]) * 10 + digit_val(s@[i as int + 1]),
            None => !(is_digit(s@[i as int]) && is_digit(s@[i as int + 1])),
        },
{
    match (digit_at(s, i), digit_at(s, i + 1)) {
        (Some(a), Some(b)) => Some(a * 10 + b),
        _ => None,
    }
}

fn four_digits_at(s: &str, i: usize) -> (r: Option<u32>)
    requires
        i < 1000,
        i + 3 < s@.len(),
    ensures
        match r {
            Some(v) => is_digit(s@[i as int]) && is_digit(s@[i as int + 1]) && is_digit(
                s@[i as int + 2],
            ) && is_digit(s@[i as int + 3]) && v < 10000 && v as int == digit_val(s@[i as int])
                * 1000 + digit_val(s@[i as int + 1]) * 100 + digit_val(s@[i as int + 2]) * 10
                + digit_val(s@[i as int + 3]),
            None => !(is_digit(s@[i as int]) && is_digit(s@[i as int + 1]) && is_digit(
                s@[i as int + 2],
            ) && is_digit(s@[i as int + 3])),
        },
{
    match (digit_at(s, i), digit_at(s, i + 1), digit_at(s, i + 2), digit_at(s, i + 3)) {
        (Some(a), Some(b), Some(c), Some(d)) => Some(a * 1000 + b * 100 + c * 10 + d),
        _ => None,
    }
}

/// Reads a persisted date text back into a timestamp; anything that is not
/// a well-shaped, real date is rejected.
pub fn parse_store_text(s: &str) -> (r: Option<DateTime>)
    ensures
        r == store_date_of(s@),
        r matches Some(d) ==> d.wf(),
{
    if s.unicode_len() != 19 {
        return None;
    }
    if !(sep_at(s, 4, '-') && sep_at(s, 7, '-') && sep_at(s, 10, 'T') && sep_at(s, 13, ':')
        && sep_at(s, 16, ':')) {
        return None;
    }
    let y = four_digits_at(s, 0);
    let mo = two_digits_at(s, 5);
    let dy = two_digits_at(s, 8);
    let h = two_digits_at(s, 11);
    let mi = two_digits_at(s, 14);
    let sec = two_digits_at(s, 17);
    match (y, mo, dy, h, mi, sec) {
        (Some(y), Some(mo), Some(dy), Some(h), Some(mi), Some(sec)) => DateTime::from_parts(
            y as i64,
            mo,
            dy,
            h,
            mi,
            sec,
        ),
        _ => None,
    }
}

/// Reads a client date entry into a timestamp at second zero; anything that
/// is not a well-shaped, real date is rejected.
pub fn parse_input_date(s: &str) -> (r: Option<DateTime>)
    ensures
        r == input_date_of(s@),
        r matches Some(d) ==> d.wf(),
{
    if s.unicode_len() != 16 {
        return None;
    }
    if !(sep_at(s, 2, '/') && sep_at(s, 5, '/') && sep_at(s, 10, ' ') && sep_at(s, 13, ':')) {
        return None;
    }
    let dy = two_digits_at(s, 0);
    let mo = two_digits_at(s, 3);
    let y = four_digits_at(s, 6);
    let h = two_digits_at(s, 11);
    let mi = two_digits_at(s, 14);
    match (y, mo, dy, h, mi) {
        (Some(y), Some(mo), Some(dy), Some(h), Some(mi)) => DateTime::from_parts(
            y as i64,
            mo,
            dy,
            h,
            mi,
            0,
        ),
        _ => None,
    }
}

proof fn lemma_digit_roundtrip(x: int)
    requires
        0 <= x < 10,
    ensures
        is_digit(digit_char(x)),
        digit_val(digit_char(x)) == x,
{
}

/// Writing a timestamp and reading it back yields the same timestamp: the
/// store's date encoding loses nothing.
pub proof fn lemma_store_text_roundtrip(d: DateTime)
    requires
        d.wf(),
    ensures
        store_date_of(store_text_of(d)) == Some(d),
{
    let t = store_text_of(d);
    assert forall|x: int| 0 <= x < 10 implies is_digit(digit_char(x)) && digit_val(digit_char(x))
        == x by {
        lemma_digit_roundtrip(x);
    }
    assert(t.len() == 19);
    assert(store_text_shape(t));
    assert(digit_val(t[0]) * 1000 + digit_val(t[1]) * 100 + digit_val(t[2]) * 10 + digit_val(t[3])
        == d.year);
    assert(digit_val(t[5]) * 10 + digit_val(t[6]) == d.month);
    assert(digit_val(t[8]) * 10 + digit_val(t[9]) == d.day);
    assert(digit_val(t[11]) * 10 + digit_val(t[12]) == d.hour);
    assert(digit_val(t[14]) * 10 + digit_val(t[15]) == d.minute);
    assert(digit_val(t[17]) * 10 + digit_val(t[18]) == d.second);
}

/// One raw row of the event table, as the store hands it over: typed id,
/// free text everywhere else.
pub struct EventRow {
    pub id: i32,
    pub name: String,
    pub message: String,
    pub recurrence: String,
    pub date: String,
    pub deleted_at: Option<String>,
}

/// The event a raw row denotes. A recurrence label outside the vocabulary
/// or an unreadable occurrence date is a store error; an occurrence date in
/// the last encodable year is rejected too, since advancing it could leave
/// the encoding. An unreadable deletion stamp counts as no deletion.
pub open spec fn row_event(row: EventRow) -> Result<Event, StoreError> {
    match recurrence_of_label(row.recurrence@) {
        None => Err(StoreError::UnknownRecurrence),
        Some(p) => match store_date_of(row.date@) {
            None => Err(StoreError::MalformedDate),
            Some(d) => if d.year < 9999 {
                Ok(
                    Event {
                        id: row.id,
                        name: row.name,
                        message: row.message,
                        recurrence_pattern: p,
                        date: d,
                        deleted_at: match row.deleted_at {
                            None => None,
                            Some(t) => store_date_of(t@),
                        },
                    },
                )
            } else {
                Err(StoreError::MalformedDate)
            },
        },
    }
}

/// Decodes one raw row into an event.
pub fn decode_row(row: &EventRow) -> (r: Result<Event, StoreError>)
    ensures
        r == row_event(*row),
        r matches Ok(e) ==> e.wf(),
{
    let p = match RecurrencePattern::from_store_str(row.recurrence.as_str()) {
        Ok(p) => p,
        Err(e) => {
            return Err(e);
        },
    };
    let d = match parse_store_text(row.date.as_str()) {
        Some(d) => d,
        None => {
            return Err(StoreError::MalformedDate);
        },
    };
    if d.year >= 9999 {
        return Err(StoreError::MalformedDate);
    }
    let deleted = match &row.deleted_at {
        None => None,
        Some(t) => parse_store_text(t.as_str()),
    };
    Ok(
        Event {
            id: row.id,
            name: row.name.clone(),
            message: row.message.clone(),
            recurrence_pattern: p,
            date: d,
            deleted_at: deleted,
        },
    )
}

/// The events a batch of raw rows denotes, or its first store error.
pub open spec fn rows_events(rows: Seq<EventRow>) -> Result<Seq<Event>, StoreError>
    decreases rows.len(),
{
    if rows.len() == 0 {
        Ok(Seq::empty())
    } else {
        match rows_events(rows.drop_last()) {
            Err(e) => Err(e),
            Ok(rest) => match row_event(rows.last()) {
                Err(e) => Err(e),
                Ok(ev) => Ok(rest.push(ev)),
            },
        }
    }
}

/// Decodes a whole query result, propagating the first store error instead
/// of silently dropping the rows that fail.
pub fn decode_rows(rows: &Vec<EventRow>) -> (r: Result<Vec<Event>, StoreError>)
    ensures
        match r {
            Ok(evs) => rows_events(rows@) == Ok::<Seq<Event>, StoreError>(evs@) && forall|j: int|
                0 <= j < evs@.len() ==> (#[trigger] evs@[j]).wf(),
            Err(e) => rows_events(rows@) == Err::<Seq<Event>, StoreError>(e),
        },
{
    let mut evs: Vec<Event> = Vec::new();
    let mut i: usize = 0;
    proof {
        assert(rows@.subrange(0, 0) =~= Seq::<EventRow>::empty());
    }
    while i < rows.len()
        invariant
            i <= rows@.len(),
            rows_events(rows@.subrange(0, i as int)) == Ok::<Seq<Event>, StoreError>(evs@),
            forall|j: int| 0 <= j < evs@.len() ==> (#[trigger] evs@[j]).wf(),
        decreases rows@.len() - i,
    {
        proof {
            assert(rows@.subrange(0, i as int + 1).drop_last() =~= rows@.subrange(0, i as int));
            assert(rows@.subrange(0, i as int + 1).last() == rows@[i as int]);
        }
        match decode_row(&rows[i]) {
            Ok(ev) => {
                evs.push(ev);
            },
            Err(e) => {
                proof {
                    lemma_rows_events_error(rows@, i as int, e);
                }
                return Err(e);
            },
        }
        i = i + 1;
    }
    proof {
        assert(rows@.subrange(0, rows@.len() as int) =~= rows@);
    }
    Ok(evs)
}

/// A row that fails to decode after a clean prefix decides the whole batch.
proof fn lemma_rows_events_error(rows: Seq<EventRow>, i: int, e: StoreError)
    requires
        0 <= i < rows.len(),
        rows_events(rows.subrange(0, i)) is Ok,
        row_event(rows[i]) == Err::<Event, StoreError>(e),
    ensures
        rows_events(rows) == Err::<Seq<Event>, StoreError>(e),
    decreases rows.len(),
{
    if i == rows.len() - 1 {
        assert(rows.drop_last() =~= rows.subrange(0, i));
        assert(rows.last() == rows[i]);
    } else {
        assert(rows.drop_last().subrange(0, i) =~= rows.subrange(0, i));
        assert(rows.drop_last()[i] == rows[i]);
        lemma_rows_events_error(rows.drop_last(), i, e);
    }
}

} // verus!

use notify_me::clock::now_local;
use notify_me::datetime::DateTime;
use notify_me::error::StoreError;
use notify_me::event::{Event, EventList};
use notify_me::recurrence::RecurrencePattern;
use notify_me::store::{
    decode_row, decode_rows, parse_input_date, parse_store_text, to_store_text, EventRow,
};

fn dt(year: u32, month: u32, day: u32, hour: u32, minute: u32, second: u32) -> DateTime {
    DateTime { year, month, day, hour, minute, second }
}

fn row(id: i32, recurrence: &str, date: &str, deleted_at: Option<&str>) -> EventRow {
    EventRow {
        id,
        name: format!("row {}", id),
        message: String::from("m"),
        recurrence: String::from(recurrence),
        date: String::from(date),
        deleted_at: deleted_at.map(String::from),
    }
}

#[test]
fn store_text_is_fixed_width() {
    assert_eq!(to_store_text(&dt(2024, 1, 31, 9, 0, 0)), "2024-01-31T09:00:00");
    assert_eq!(to_store_text(&dt(987, 12, 5, 23, 59, 7)), "0987-12-05T23:59:07");
}

#[test]
fn store_text_parses_back() {
    let d = dt(2024, 2, 29, 15, 4, 59);
    assert_eq!(parse_store_text(&to_store_text(&d)), Some(d));
}

#[test]
fn parse_store_text_rejects_malformed_texts() {
    assert_eq!(parse_store_text(""), None);
    assert_eq!(parse_store_text("2024-01-31 09:00:00"), None);
    assert_eq!(parse_store_text("2024-01-31T09:00"), None);
    assert_eq!(parse_store_text("2024-13-01T09:00:00"), None);
    assert_eq!(parse_store_text("2024-02-30T09:00:00"), None);
    assert_eq!(parse_store_text("2023-02-29T09:00:00"), None);
    assert_eq!(parse_store_text("2024-01-31T24:00:00"), None);
    assert_eq!(parse_store_text("2024-01-31T09:60:00"), None);
    assert_eq!(parse_store_text("0000-01-31T09:00:00"), None);
    assert_eq!(parse_store_text("2O24-01-31T09:00:00"), None);
}

#[test]
fn parse_input_date_accepts_the_prompt_format() {
    assert_eq!(parse_input_date("31/01/2024 09:00"), Some(dt(2024, 1, 31, 9, 0, 0)));
    assert_eq!(parse_input_date("29/02/2024 23:59"), Some(dt(2024, 2, 29, 23, 59, 0)));
}

#[test]
fn parse_input_date_rejects_malformed_entries() {
    assert_eq!(parse_input_date("2024-01-31 09:00"), None);
    assert_eq!(parse_input_date("31/01/2024"), None);
    assert_eq!(parse_input_date("32/01/2024 09:00"), None);
    assert_eq!(parse_input_date("29/02/2023 09:00"), None);
    assert_eq!(parse_input_date("31/01/2024 09:70"), None);
    assert_eq!(parse_input_date("31-01-2024 09:00"), None);
}

#[test]
fn decode_row_reads_a_full_row() {
    let r = row(3, "monthly", "2024-01-31T09:00:00", None);
    let e = decode_row(&r).unwrap();
    assert_eq!(e.id, 3);
    assert_eq!(e.name, "row 3");
    assert_eq!(e.message, "m");
    assert_eq!(e.recurrence_pattern, RecurrencePattern::Monthly);
    assert_eq!(e.date, dt(2024, 1, 31, 9, 0, 0));
    assert!(e.deleted_at.is_none());
}

#[test]
fn decode_row_reads_a_deletion_stamp() {
    let r = row(4, "once", "2024-01-31T09:00:00", Some("2024-02-01T00:00:00"));
    let e = decode_row(&r).unwrap();
    assert_eq!(e.deleted_at, Some(dt(2024, 2, 1, 0, 0, 0)));
}

#[test]
fn decode_row_treats_unreadable_deletion_stamp_as_no_deletion() {
    let r = row(5, "once", "2024-01-31T09:00:00", Some("not a date"));
    let e = decode_row(&r).unwrap();
    assert!(e.deleted_at.is_none());
}

#[test]
fn decode_row_rejects_unknown_recurrence() {
    let r = row(6, "fortnightly", "2024-01-31T09:00:00", None);
    assert_eq!(decode_row(&r).unwrap_err(), StoreError::UnknownRecurrence);
}

#[test]
fn decode_row_rejects_unreadable_date() {
    let r = row(7, "daily", "soon", None);
    assert_eq!(decode_row(&r).unwrap_err(), StoreError::MalformedDate);
}

#[test]
fn decode_row_rejects_last_encodable_year() {
    let r = row(8, "daily", "9999-01-01T00:00:00", None);
    assert_eq!(decode_row(&r).unwrap_err(), StoreError::MalformedDate);
}

#[test]
fn decode_rows_propagates_the_first_error() {
    let rows = vec![
        row(1, "daily", "2024-01-31T09:00:00", None),
        row(2, "sometimes", "2024-01-31T09:00:00", None),
        row(3, "weekly", "bad", None),
    ];
    assert_eq!(decode_rows(&rows).unwrap_err(), StoreError::UnknownRecurrence);
    let good = vec![
        row(1, "daily", "2024-01-31T09:00:00", None),
        row(2, "weekly", "2024-03-01T10:30:00", None),
    ];
    let evs = decode_rows(&good).unwrap();
    assert_eq!(evs.len(), 2);
    assert_eq!(evs[1].date, dt(2024, 3, 1, 10, 30, 0));
}

#[test]
fn event_renders_its_block() {
    let e = Event {
        id: 1,
        name: String::from("dentist"),
        message: String::from("bring the referral"),
        recurrence_pattern: RecurrencePattern::Monthly,
        date: dt(2024, 1, 31, 9, 5, 0),
        deleted_at: None,
    };
    assert_eq!(e.render(), "Event: dentist\nAt: 2024-01-31 09:05\nRecurrence: monthly");
}

#[test]
fn event_list_renders_blocks_or_placeholder() {
    assert_eq!(EventList(vec![]).render(), "No events today");
    let a = Event {
        id: 1,
        name: String::from("a"),
        message: String::new(),
        recurrence_pattern: RecurrencePattern::Once,
        date: dt(2024, 1, 1, 8, 0, 0),
        deleted_at: None,
    };
    let b = Event {
        id: 2,
        name: String::from("b"),
        message: String::new(),
        recurrence_pattern: RecurrencePattern::Daily,
        date: dt(2024, 1, 1, 9, 30, 0),
        deleted_at: None,
    };
    assert_eq!(
        EventList(vec![a, b]).render(),
        "Event: a\nAt: 2024-01-01 08:00\nRecurrence: once\n\nEvent: b\nAt: 2024-01-01 09:30\nRecurrence: daily"
    );
}

#[test]
fn host_clock_is_in_calendar_range() {
    // The chrono-backed clock must come back validated, not echoed.
    let now = now_local().unwrap();
    assert!(1 <= now.month && now.month <= 12);
    assert!(1 <= now.day && now.day <= 31);
    assert!(now.hour < 24 && now.minute < 60 && now.second < 60);
    assert!(2020 < now.year && now.year < 9999);
}

use notify_me::datetime::DateTime;
use notify_me::error::StoreError;
use notify_me::recurrence::RecurrencePattern;
use notify_me::scheduler::next_occurrence;

fn dt(year: u32, month: u32, day: u32, hour: u32, minute: u32, second: u32) -> DateTime {
    DateTime { year, month, day, hour, minute, second }
}

#[test]
fn daily_advances_one_calendar_day() {
    let d = dt(2024, 3, 15, 10, 30, 0);
    assert_eq!(next_occurrence(&d, RecurrencePattern::Daily), dt(2024, 3, 16, 10, 30, 0));
}

#[test]
fn daily_crosses_month_end() {
    let d = dt(2024, 4, 30, 8, 0, 5);
    assert_eq!(next_occurrence(&d, RecurrencePattern::Daily), dt(2024, 5, 1, 8, 0, 5));
}

#[test]
fn daily_crosses_year_end() {
    let d = dt(2024, 12, 31, 23, 15, 0);
    assert_eq!(next_occurrence(&d, RecurrencePattern::Daily), dt(2025, 1, 1, 23, 15, 0));
}

#[test]
fn daily_knows_leap_february() {
    let leap = dt(2024, 2, 28, 9, 0, 0);
    assert_eq!(next_occurrence(&leap, RecurrencePattern::Daily), dt(2024, 2, 29, 9, 0, 0));
    let plain = dt(2023, 2, 28, 9, 0, 0);
    assert_eq!(next_occurrence(&plain, RecurrencePattern::Daily), dt(2023, 3, 1, 9, 0, 0));
}

#[test]
fn century_leap_rule() {
    let y1900 = dt(1900, 2, 28, 0, 0, 0);
    assert_eq!(next_occurrence(&y1900, RecurrencePattern::Daily), dt(1900, 3, 1, 0, 0, 0));
    let y2000 = dt(2000, 2, 28, 0, 0, 0);
    assert_eq!(next_occurrence(&y2000, RecurrencePattern::Daily), dt(2000, 2, 29, 0, 0, 0));
}

#[test]
fn weekly_advances_seven_days() {
    let d = dt(2024, 3, 28, 18, 45, 30);
    assert_eq!(next_occurrence(&d, RecurrencePattern::Weekly), dt(2024, 4, 4, 18, 45, 30));
}

#[test]
fn weekly_crosses_year_end() {
    let d = dt(2024, 12, 30, 7, 0, 0);
    assert_eq!(next_occurrence(&d, RecurrencePattern::Weekly), dt(2025, 1, 6, 7, 0, 0));
}

#[test]
fn monthly_keeps_day_when_target_month_has_it() {
    let d = dt(2024, 1, 15, 9, 0, 0);
    assert_eq!(next_occurrence(&d, RecurrencePattern::Monthly), dt(2024, 2, 15, 9, 0, 0));
}

#[test]
fn monthly_wraps_december_into_next_year() {
    let d = dt(2024, 12, 5, 12, 0, 0);
    assert_eq!(next_occurrence(&d, RecurrencePattern::Monthly), dt(2025, 1, 5, 12, 0, 0));
}

#[test]
fn monthly_stays_put_when_target_month_is_short() {
    // January 31st cannot land in February: the date is left unchanged.
    let d = dt(2024, 1, 31, 9, 0, 0);
    assert_eq!(next_occurrence(&d, RecurrencePattern::Monthly), d);
    // March 31st cannot land in April either.
    let d2 = dt(2024, 3, 31, 9, 0, 0);
    assert_eq!(next_occurrence(&d2, RecurrencePattern::Monthly), d2);
    // January 30th of a leap year still misses February's 29 days.
    let d3 = dt(2024, 1, 30, 9, 0, 0);
    assert_eq!(next_occurrence(&d3, RecurrencePattern::Monthly), d3);
}

#[test]
fn store_labels_round_trip() {
    let kinds = [
        RecurrencePattern::Once,
        RecurrencePattern::Daily,
        RecurrencePattern::Weekly,
        RecurrencePattern::Monthly,
    ];
    for k in kinds {
        assert_eq!(RecurrencePattern::from_store_str(k.to_store_str()), Ok(k));
    }
    assert_eq!(RecurrencePattern::Daily.to_store_str(), "daily");
    assert_eq!(RecurrencePattern::Weekly.to_store_str(), "weekly");
    assert_eq!(RecurrencePattern::Monthly.to_store_str(), "monthly");
    assert_eq!(RecurrencePattern::Once.to_store_str(), "once");
}

#[test]
fn unknown_label_is_a_store_error() {
    assert_eq!(RecurrencePattern::from_store_str("yearly"), Err(StoreError::UnknownRecurrence));
    assert_eq!(RecurrencePattern::from_store_str(""), Err(StoreError::UnknownRecurrence));
    assert_eq!(RecurrencePattern::from_store_str("Daily"), Err(StoreError::UnknownRecurrence));
}

use notify_me::datetime::DateTime;
use notify_me::event::Event;
use notify_me::menu::Operation;
use notify_me::recurrence::RecurrencePattern;
use notify_me::scheduler::current_day_events;

fn dt(year: u32, month: u32, day: u32, hour: u32, minute: u32, second: u32) -> DateTime {
    DateTime { year, month, day, hour, minute, second }
}

fn ev(id: i32, date: DateTime, deleted_at: Option<DateTime>) -> Event {
    Event {
        id,
        name: format!("event {}", id),
        message: String::new(),
        recurrence_pattern: RecurrencePattern::Once,
        date,
        deleted_at,
    }
}

#[test]
fn lenient_recurrence_entry_forgives_case_and_spacing() {
    assert_eq!(RecurrencePattern::from_input("daily"), RecurrencePattern::Daily);
    assert_eq!(RecurrencePattern::from_input("  Weekly \n"), RecurrencePattern::Weekly);
    assert_eq!(RecurrencePattern::from_input("MONTHLY"), RecurrencePattern::Monthly);
    assert_eq!(RecurrencePattern::from_input("once"), RecurrencePattern::Once);
}

#[test]
fn lenient_recurrence_entry_defaults_to_once() {
    assert_eq!(RecurrencePattern::from_input("hourly"), RecurrencePattern::Once);
    assert_eq!(RecurrencePattern::from_input(""), RecurrencePattern::Once);
    assert_eq!(RecurrencePattern::from_input("dai ly"), RecurrencePattern::Once);
}

#[test]
fn operation_labels_round_trip() {
    let ops = [Operation::Today, Operation::Create, Operation::Update, Operation::Delete];
    for op in ops {
        assert_eq!(Operation::from_input(op.to_menu_str()), Some(op));
    }
    assert_eq!(Operation::Today.to_menu_str(), "today");
}

#[test]
fn operation_entry_forgives_case_and_spacing_but_not_strangers() {
    assert_eq!(Operation::from_input("\tCreate "), Some(Operation::Create));
    assert_eq!(Operation::from_input("DELETE"), Some(Operation::Delete));
    assert_eq!(Operation::from_input("list"), None);
    assert_eq!(Operation::from_input("   "), None);
}

#[test]
fn day_listing_keeps_the_day_and_drops_deleted() {
    let today = dt(2024, 6, 1, 14, 0, 0);
    let events = vec![
        ev(1, dt(2024, 6, 1, 8, 0, 0), None),
        ev(2, dt(2024, 6, 2, 8, 0, 0), None),
        ev(3, dt(2024, 6, 1, 23, 59, 59), Some(dt(2024, 5, 1, 0, 0, 0))),
        ev(4, dt(2024, 6, 1, 0, 0, 0), None),
    ];
    let listed = current_day_events(&events, &today);
    assert_eq!(listed.len(), 2);
    assert_eq!(listed[0].id, 1);
    assert_eq!(listed[1].id, 4);
}

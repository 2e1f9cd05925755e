use terminplaner::appointment::{Appointment, Date, Time};
use terminplaner::monitor::{is_due, scan};

fn appt(date: Date, time: Time, desc: &str, loc: &str) -> Appointment {
    Appointment {
        id: Some(1),
        date,
        time,
        description: desc.to_string(),
        location: loc.to_string(),
    }
}

fn today() -> Date {
    Date { year: 2026, month: 10, day: 12 }
}

fn tomorrow() -> Date {
    Date { year: 2026, month: 10, day: 13 }
}

fn now() -> Time {
    Time { hour: 8, minute: 30 }
}

#[test]
fn past_instant_is_due_future_is_not() {
    let past = appt(today(), Time { hour: 0, minute: 1 }, "standup", "room A");
    let future = appt(today(), Time { hour: 9, minute: 0 }, "review", "room B");
    assert!(is_due(&past, today(), now()));
    assert!(!is_due(&future, today(), now()));
}

#[test]
fn instant_equal_to_now_is_due() {
    let exact = appt(today(), now(), "on the dot", "hall");
    assert!(is_due(&exact, today(), now()));
}

#[test]
fn due_ness_compares_dates_before_times() {
    let yesterday_late = appt(Date { year: 2026, month: 10, day: 11 }, Time { hour: 23, minute: 59 }, "a", "b");
    let tomorrow_early = appt(tomorrow(), Time { hour: 0, minute: 0 }, "a", "b");
    assert!(is_due(&yesterday_late, today(), now()));
    assert!(!is_due(&tomorrow_early, today(), now()));
}

#[test]
fn scan_notifies_due_appointment_with_its_details() {
    let snapshot = vec![appt(today(), Time { hour: 0, minute: 1 }, "standup", "room A")];
    let notices = scan(&snapshot, today(), now());
    assert_eq!(notices.len(), 1);
    assert_eq!(notices[0].summary, "Termin-Erinnerung");
    assert_eq!(notices[0].body, "standup: 00:01 in room A");
    assert!(notices[0].body.contains("standup"));
    assert!(notices[0].body.contains("room A"));
}

#[test]
fn scan_today_never_flags_tomorrow() {
    let snapshot = vec![appt(tomorrow(), Time { hour: 9, minute: 0 }, "planning", "room C")];
    for hour in 0u8..24 {
        let notices = scan(&snapshot, today(), Time { hour, minute: 59 });
        assert_eq!(notices.len(), 0);
    }
}

#[test]
fn scan_flags_due_appointment_again_on_every_later_scan() {
    let snapshot = vec![appt(today(), Time { hour: 0, minute: 1 }, "nag", "desk")];
    let first = scan(&snapshot, today(), now());
    let second = scan(&snapshot, today(), Time { hour: 8, minute: 40 });
    let third = scan(&snapshot, tomorrow(), Time { hour: 0, minute: 0 });
    assert_eq!(first.len(), 1);
    assert_eq!(second.len(), 1);
    assert_eq!(third.len(), 1);
    assert_eq!(second[0].body, first[0].body);
}

#[test]
fn scan_keeps_snapshot_order_and_skips_only_future_entries() {
    let snapshot = vec![
        appt(today(), Time { hour: 1, minute: 0 }, "one", "x"),
        appt(today(), Time { hour: 9, minute: 0 }, "future", "y"),
        appt(today(), Time { hour: 2, minute: 0 }, "two", "z"),
    ];
    let notices = scan(&snapshot, today(), now());
    assert_eq!(notices.len(), 2);
    assert_eq!(notices[0].body, "one: 01:00 in x");
    assert_eq!(notices[1].body, "two: 02:00 in z");
}

#[test]
fn scan_of_empty_snapshot_is_empty() {
    let snapshot: Vec<Appointment> = Vec::new();
    assert_eq!(scan(&snapshot, today(), now()).len(), 0);
}

use terminplaner::appointment::{Date, Time};
use terminplaner::codec::{format_date, format_time, parse_date, parse_time};

#[test]
fn format_date_pads_every_field() {
    let d = Date { year: 2024, month: 3, day: 7 };
    assert_eq!(format_date(&d), "2024-03-07");
    let d = Date { year: 987, month: 12, day: 31 };
    assert_eq!(format_date(&d), "0987-12-31");
}

#[test]
fn format_time_pads_every_field() {
    assert_eq!(format_time(&Time { hour: 9, minute: 5 }), "09:05");
    assert_eq!(format_time(&Time { hour: 0, minute: 1 }), "00:01");
    assert_eq!(format_time(&Time { hour: 23, minute: 59 }), "23:59");
}

#[test]
fn parse_date_accepts_stored_form() {
    assert_eq!(parse_date("2024-03-07"), Some(Date { year: 2024, month: 3, day: 7 }));
    assert_eq!(parse_date("0001-01-01"), Some(Date { year: 1, month: 1, day: 1 }));
}

#[test]
fn parse_date_knows_leap_years() {
    assert_eq!(parse_date("2024-02-29"), Some(Date { year: 2024, month: 2, day: 29 }));
    assert_eq!(parse_date("2023-02-29"), None);
    assert_eq!(parse_date("1900-02-29"), None);
    assert_eq!(parse_date("2000-02-29"), Some(Date { year: 2000, month: 2, day: 29 }));
}

#[test]
fn parse_date_rejects_malformed_text() {
    assert_eq!(parse_date(""), None);
    assert_eq!(parse_date("2024-3-07"), None);
    assert_eq!(parse_date("2024/03/07"), None);
    assert_eq!(parse_date("2024-13-01"), None);
    assert_eq!(parse_date("2024-04-31"), None);
    assert_eq!(parse_date("2024-00-10"), None);
    assert_eq!(parse_date("2024-03-07x"), None);
}

#[test]
fn parse_time_accepts_stored_form() {
    assert_eq!(parse_time("09:05"), Some(Time { hour: 9, minute: 5 }));
    assert_eq!(parse_time("00:00"), Some(Time { hour: 0, minute: 0 }));
    assert_eq!(parse_time("23:59"), Some(Time { hour: 23, minute: 59 }));
}

#[test]
fn parse_time_rejects_malformed_text() {
    assert_eq!(parse_time("24:00"), None);
    assert_eq!(parse_time("12:60"), None);
    assert_eq!(parse_time("9:00"), None);
    assert_eq!(parse_time("09-00"), None);
    assert_eq!(parse_time(""), None);
}

#[test]
fn date_text_round_trips() {
    let dates = [
        Date { year: 2026, month: 10, day: 12 },
        Date { year: 0, month: 1, day: 1 },
        Date { year: 9999, month: 12, day: 31 },
        Date { year: 2024, month: 2, day: 29 },
    ];
    for d in dates {
        assert_eq!(parse_date(&format_date(&d)), Some(d));
    }
}

#[test]
fn time_text_round_trips() {
    for hour in [0u8, 9, 12, 23] {
        for minute in [0u8, 1, 30, 59] {
            let t = Time { hour, minute };
            assert_eq!(parse_time(&format_time(&t)), Some(t));
        }
    }
}

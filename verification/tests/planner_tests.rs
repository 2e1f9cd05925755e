use std::sync::{Arc, Mutex};

use terminplaner::appointment::{Date, Time};
use terminplaner::planner::Planner;

fn date(y: i32, m: u8, d: u8) -> Date {
    Date { year: y, month: m, day: d }
}

fn time(h: u8, m: u8) -> Time {
    Time { hour: h, minute: m }
}

fn fresh_planner() -> Planner {
    let (planner, skipped) = Planner::open_in_memory().unwrap();
    assert_eq!(skipped, 0);
    planner
}

#[test]
fn add_assigns_fresh_unique_ids_and_lists_exactly_once() {
    let mut planner = fresh_planner();
    let id1 = planner
        .add(date(2026, 10, 12), time(9, 0), "standup".to_string(), "room A".to_string())
        .unwrap();
    let id2 = planner
        .add(date(2026, 10, 13), time(14, 30), "review".to_string(), "room B".to_string())
        .unwrap();
    assert_ne!(id1, id2);
    let listed = planner.list();
    assert_eq!(listed.len(), 2);
    let matching: Vec<_> = listed.iter().filter(|a| a.id == Some(id1)).collect();
    assert_eq!(matching.len(), 1);
    assert_eq!(matching[0].date, date(2026, 10, 12));
    assert_eq!(matching[0].time, time(9, 0));
    assert_eq!(matching[0].description, "standup");
    assert_eq!(matching[0].location, "room A");
}

#[test]
fn add_accepts_empty_description_and_location() {
    let mut planner = fresh_planner();
    let id = planner
        .add(date(2026, 1, 1), time(0, 0), String::new(), String::new())
        .unwrap();
    let listed = planner.list();
    assert_eq!(listed.len(), 1);
    assert_eq!(listed[0].id, Some(id));
    assert_eq!(listed[0].description, "");
    assert_eq!(listed[0].location, "");
}

#[test]
fn remove_deleted_id_leaves_only_the_other() {
    let mut planner = fresh_planner();
    let id1 = planner
        .add(date(2026, 10, 12), time(9, 0), "first".to_string(), "a".to_string())
        .unwrap();
    let id2 = planner
        .add(date(2026, 10, 12), time(10, 0), "second".to_string(), "b".to_string())
        .unwrap();
    planner.remove(id1).unwrap();
    let listed = planner.list();
    assert_eq!(listed.len(), 1);
    assert_eq!(listed[0].id, Some(id2));
    assert_eq!(listed[0].description, "second");
    let notices = planner.scan(date(2027, 1, 1), time(0, 0));
    assert_eq!(notices.len(), 1);
    assert_eq!(notices[0].body, "second: 10:00 in b");
}

#[test]
fn remove_absent_id_succeeds_without_mutating() {
    let mut planner = fresh_planner();
    let id = planner
        .add(date(2026, 10, 12), time(9, 0), "kept".to_string(), "here".to_string())
        .unwrap();
    planner.remove(id + 1000).unwrap();
    let listed = planner.list();
    assert_eq!(listed.len(), 1);
    assert_eq!(listed[0].id, Some(id));
    assert_eq!(listed[0].description, "kept");
}

#[test]
fn scan_flags_due_entry_with_description_and_location() {
    let mut planner = fresh_planner();
    planner
        .add(date(2026, 10, 12), time(0, 1), "standup".to_string(), "room A".to_string())
        .unwrap();
    let notices = planner.scan(date(2026, 10, 12), time(8, 30));
    assert_eq!(notices.len(), 1);
    assert_eq!(notices[0].summary, "Termin-Erinnerung");
    assert!(notices[0].body.contains("standup"));
    assert!(notices[0].body.contains("room A"));
}

#[test]
fn scan_performed_today_ignores_tomorrow() {
    let mut planner = fresh_planner();
    planner
        .add(date(2026, 10, 13), time(9, 0), "planning".to_string(), "room C".to_string())
        .unwrap();
    assert_eq!(planner.scan(date(2026, 10, 12), time(0, 0)).len(), 0);
    assert_eq!(planner.scan(date(2026, 10, 12), time(23, 59)).len(), 0);
    assert_eq!(planner.scan(date(2026, 10, 13), time(9, 0)).len(), 1);
}

#[test]
fn due_entry_is_flagged_on_every_scan_until_removed() {
    let mut planner = fresh_planner();
    let id = planner
        .add(date(2026, 10, 12), time(0, 1), "nag".to_string(), "desk".to_string())
        .unwrap();
    assert_eq!(planner.scan(date(2026, 10, 12), time(8, 0)).len(), 1);
    assert_eq!(planner.scan(date(2026, 10, 12), time(8, 10)).len(), 1);
    assert_eq!(planner.scan(date(2026, 10, 12), time(8, 20)).len(), 1);
    planner.remove(id).unwrap();
    assert_eq!(planner.scan(date(2026, 10, 12), time(8, 30)).len(), 0);
}

#[test]
fn concurrent_adds_removes_and_scans_serialize() {
    let rt = tokio::runtime::Builder::new_multi_thread()
        .worker_threads(4)
        .build()
        .unwrap();
    rt.block_on(async {
        let planner = Arc::new(Mutex::new(fresh_planner()));
        let mut handles = Vec::new();
        for task in 0..4i64 {
            let p = planner.clone();
            handles.push(tokio::spawn(async move {
                for k in 0..10i64 {
                    let id = p
                        .lock()
                        .unwrap()
                        .add(
                            date(2026, 10, 12),
                            time(0, 1),
                            format!("job {task}-{k}"),
                            "x".to_string(),
                        )
                        .unwrap();
                    if k % 3 == 0 {
                        p.lock().unwrap().remove(id).unwrap();
                    }
                    tokio::task::yield_now().await;
                }
            }));
        }
        let p = planner.clone();
        handles.push(tokio::spawn(async move {
            for _ in 0..20 {
                let notices = p.lock().unwrap().scan(date(2026, 10, 12), time(8, 0));
                for n in notices {
                    // never a torn entry: every notice names a complete record
                    assert_eq!(n.summary, "Termin-Erinnerung");
                    assert!(n.body.ends_with("in x"));
                    assert!(n.body.contains(": 00:01 in"));
                }
                tokio::task::yield_now().await;
            }
        }));
        for h in handles {
            h.await.unwrap();
        }
        // net effect of all completed operations: each task added 10 and
        // removed the 4 it added at k = 0, 3, 6, 9
        let listed = planner.lock().unwrap().list();
        assert_eq!(listed.len(), 24);
        let mut ids: Vec<i64> = listed.iter().map(|a| a.id.unwrap()).collect();
        ids.sort();
        ids.dedup();
        assert_eq!(ids.len(), 24);
    });
}

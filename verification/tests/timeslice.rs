use rustray::timeslice::TimeSlice;
use std::time::{Duration, Instant};

#[test]
fn timeslice_charges_running_section() {
    let now = Instant::now();
    let mut t = TimeSlice::new("startup");
    assert_eq!(t.get("startup"), None);
    t.record("read", now, (1, 500_000_000));
    assert_eq!(t.get("startup"), Some(Duration::new(1, 500_000_000)));
    assert_eq!(t.get("read"), None);
    t.record("startup", now, (0, 200_000_000));
    assert_eq!(t.get("read"), Some(Duration::new(0, 200_000_000)));
    t.record("write", now, (2, 600_000_000));
    assert_eq!(t.get("startup"), Some(Duration::new(4, 100_000_000)));
}

#[test]
fn timeslice_show_orders_by_time() {
    let now = Instant::now();
    let mut t = TimeSlice::new("a");
    t.record("b", now, (0, 5));
    t.record("c", now, (3, 0));
    t.record("d", now, (0, 5));
    t.record("", now, (1, 0));
    let rows = t.show();
    let names: Vec<&str> = rows.iter().map(|r| r.0.as_str()).collect();
    assert_eq!(names, vec!["b", "d", "c", "a"]);
    assert_eq!(rows[0].1, (3, 0));
    assert_eq!(rows[1].1, (1, 0));
    assert_eq!(rows[2].1, (0, 5));
    assert_eq!(rows[3].1, (0, 5));
}

#[test]
fn timeslice_set_and_stop_read_the_clock() {
    let mut t = TimeSlice::new("startup");
    assert!(t.set("render"));
    assert!(t.get("startup").is_some());
    assert!(t.stop());
    assert!(t.get("render").is_some());
    assert_eq!(t.show().len(), 2);
}

#[test]
fn timeslice_refuses_overflow() {
    let now = Instant::now();
    let mut t = TimeSlice::new("long");
    t.record("short", now, (u64::MAX, 999_999_999));
    t.record("long", now, (0, 1));
    while Instant::now() <= now {}
    assert!(!t.set("other"));
    assert_eq!(t.get("long"), Some(Duration::new(u64::MAX, 999_999_999)));
}

#[test]
fn timeslice_time_is_sum_of_charges() {
    let now = Instant::now();
    let mut t = TimeSlice::new("a");
    t.record("b", now, (1, 900_000_000));
    t.record("a", now, (0, 1));
    t.record("b", now, (0, 200_000_000));
    t.record("a", now, (2, 0));
    assert_eq!(t.get("a"), Some(Duration::new(2, 100_000_000)));
    assert_eq!(t.get("b"), Some(Duration::new(2, 1)));
    assert_eq!(t.get("c"), None);
}

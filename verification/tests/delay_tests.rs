use time_warp::delay::{DelayMonitor, MonitorSlot};
use time_warp::IntersectionID;

#[test]
fn fresh_monitor_finds_nothing() {
    let m = DelayMonitor::new(0);
    assert_eq!(m.halting_location(100, 0), None);
}

#[test]
fn first_seen_times_are_kept() {
    let a = IntersectionID(1);
    let b = IntersectionID(2);
    let mut m = DelayMonitor::new(0);
    m.update(&vec![a, b], 5);
    m.update(&vec![a, b], 10);
    assert_eq!(m.delayed, vec![(a, 5), (b, 5)]);
}

#[test]
fn unreported_locations_are_removed_at_once() {
    let a = IntersectionID(1);
    let b = IntersectionID(2);
    let mut m = DelayMonitor::new(0);
    m.update(&vec![a, b], 5);
    m.update(&vec![a], 10);
    assert_eq!(m.delayed, vec![(a, 5)]);
    m.update(&vec![], 15);
    assert_eq!(m.delayed, vec![]);
}

#[test]
fn reappearing_location_starts_over() {
    let a = IntersectionID(1);
    let mut m = DelayMonitor::new(0);
    m.update(&vec![a], 5);
    m.update(&vec![], 10);
    m.update(&vec![a], 15);
    assert_eq!(m.delayed, vec![(a, 15)]);
}

#[test]
fn halting_location_is_the_earliest() {
    let a = IntersectionID(1);
    let b = IntersectionID(2);
    let mut m = DelayMonitor::new(0);
    m.update(&vec![a], 5);
    m.update(&vec![a, b], 10);
    assert_eq!(m.delayed, vec![(a, 5), (b, 10)]);
    assert_eq!(m.halting_location(70, 60), Some((a, 5)));
    assert_eq!(m.halting_location(64, 60), None);
}

#[test]
fn slot_has_one_owner_at_a_time() {
    let mut slot = MonitorSlot::new();
    let first = slot.acquire();
    assert!(first.is_some());
    let second = slot.acquire();
    assert!(second.is_none());
    slot.release(first.unwrap());
    let third = slot.acquire();
    assert!(third.is_some());
}

use time_warp::delay::MonitorSlot;
use time_warp::screen::{
    Alert, CongestionReport, SessionState, TickInput, TimeWarpScreen, speed_factor,
};
use time_warp::IntersectionID;

fn quiet_tick(consumed: u64, finished_trips: usize, wall_elapsed: u64) -> TickInput {
    TickInput {
        cancel_requested: false,
        alerts: vec![],
        consumed,
        reports: vec![],
        finished_trips,
        wall_elapsed,
    }
}

#[test]
fn speed_factor_examples() {
    // 600 units of simulated time in 2 units of wall time plays at 300x
    assert_eq!(speed_factor(600, 2), 300);
    assert_eq!(speed_factor(0, 5), 0);
    assert_eq!(speed_factor(7, 2), 3);
    assert_eq!(speed_factor(7, 0), 0);
}

#[test]
fn completes_exactly_at_target() {
    let mut slot = MonitorSlot::new();
    let mut screen = TimeWarpScreen::new(&mut slot, 0, 100, None, None, 33);
    screen.event(&mut slot, quiet_tick(60, 0, 1));
    assert!(matches!(screen.state, SessionState::Running));
    assert_eq!(screen.now, 60);
    screen.event(&mut slot, quiet_tick(40, 0, 2));
    assert!(matches!(screen.state, SessionState::Completed));
    assert_eq!(screen.now, 100);
    // later ticks change nothing
    screen.event(&mut slot, quiet_tick(0, 0, 3));
    assert!(matches!(screen.state, SessionState::Completed));
}

#[test]
fn status_reports_speed_and_counts() {
    let mut slot = MonitorSlot::new();
    let mut screen = TimeWarpScreen::new(&mut slot, 0, 600, None, None, 33);
    screen.event(&mut slot, quiet_tick(600, 41, 2));
    assert!(matches!(screen.state, SessionState::Completed));
    let status = screen.status.as_ref().unwrap();
    assert_eq!(status.now, 600);
    assert_eq!(status.target, 600);
    assert_eq!(status.speed, 300);
    assert_eq!(status.finished_trips, 41);
    assert!(status.baseline_delta.is_none());
}

#[test]
fn status_carries_baseline_delta() {
    let mut slot = MonitorSlot::new();
    let baseline: Vec<u64> = vec![100, 200, 300];
    let mut screen = TimeWarpScreen::new(&mut slot, 0, 1000, None, Some(baseline), 33);
    screen.event(&mut slot, quiet_tick(250, 1, 1));
    assert!(matches!(screen.state, SessionState::Running));
    let status = screen.status.as_ref().unwrap();
    assert_eq!(status.baseline_delta.as_deref(), Some("-1"));
}

#[test]
fn empty_baseline_skips_the_comparison() {
    let mut slot = MonitorSlot::new();
    let empty: Vec<u64> = vec![];
    let mut screen = TimeWarpScreen::new(&mut slot, 0, 1000, None, Some(empty), 33);
    screen.event(&mut slot, quiet_tick(250, 1, 1));
    let status = screen.status.as_ref().unwrap();
    assert!(status.baseline_delta.is_none());
}

#[test]
fn cancellation_stops_advancement_and_frees_the_slot() {
    let mut slot = MonitorSlot::new();
    let mut screen = TimeWarpScreen::new(&mut slot, 0, 1000, Some(60), None, 33);
    screen.event(&mut slot, quiet_tick(100, 0, 1));
    assert_eq!(screen.now, 100);
    let cancel = TickInput {
        cancel_requested: true,
        alerts: vec![],
        consumed: 0,
        reports: vec![],
        finished_trips: 0,
        wall_elapsed: 2,
    };
    screen.event(&mut slot, cancel);
    assert!(matches!(screen.state, SessionState::Cancelled));
    assert_eq!(screen.now, 100);
    // the monitor slot is free again right away
    let handle = slot.acquire();
    assert!(handle.is_some());
}

#[test]
fn first_alert_ends_the_session() {
    let mut slot = MonitorSlot::new();
    let mut screen = TimeWarpScreen::new(&mut slot, 0, 1000, Some(60), None, 33);
    let tick = TickInput {
        cancel_requested: false,
        alerts: vec![
            Alert { time: 10, location: Some(IntersectionID(3)), message: String::from("gridlock") },
            Alert { time: 11, location: None, message: String::from("dropped") },
        ],
        consumed: 0,
        reports: vec![],
        finished_trips: 0,
        wall_elapsed: 1,
    };
    screen.event(&mut slot, tick);
    match &screen.state {
        SessionState::CompletedWithAlert { alert } => {
            assert_eq!(alert.time, 10);
            assert_eq!(alert.location, Some(IntersectionID(3)));
            assert_eq!(alert.message, "gridlock");
        }
        _ => panic!("expected the first alert to end the session"),
    }
    // the slot was released on the way out
    assert!(slot.acquire().is_some());
}

#[test]
fn halts_on_the_callback_that_crosses_the_threshold() {
    let a = IntersectionID(7);
    let mut slot = MonitorSlot::new();
    let mut screen = TimeWarpScreen::new(&mut slot, 0, 1000, Some(60), None, 33);
    // congestion at `a` appears at time 60; not old enough yet
    let tick1 = TickInput {
        cancel_requested: false,
        alerts: vec![],
        consumed: 60,
        reports: vec![CongestionReport { time: 60, congested: vec![a] }],
        finished_trips: 0,
        wall_elapsed: 1,
    };
    screen.event(&mut slot, tick1);
    assert!(matches!(screen.state, SessionState::Running));
    // still congested at 119: age 59, just under the threshold
    let tick2 = TickInput {
        cancel_requested: false,
        alerts: vec![],
        consumed: 59,
        reports: vec![CongestionReport { time: 119, congested: vec![a] }],
        finished_trips: 0,
        wall_elapsed: 2,
    };
    screen.event(&mut slot, tick2);
    assert!(matches!(screen.state, SessionState::Running));
    // the very next callback with the location still present halts
    let tick3 = TickInput {
        cancel_requested: false,
        alerts: vec![],
        consumed: 1,
        reports: vec![CongestionReport { time: 120, congested: vec![a] }],
        finished_trips: 0,
        wall_elapsed: 2,
    };
    screen.event(&mut slot, tick3);
    match screen.state {
        SessionState::Halted { location, first_seen } => {
            assert_eq!(location, a);
            assert_eq!(first_seen, 60);
        }
        _ => panic!("expected the session to halt on the aged delay"),
    }
    // the slot was released on the halting transition
    assert!(slot.acquire().is_some());
}

#[test]
fn degraded_session_completes_and_never_halts() {
    let mut slot = MonitorSlot::new();
    let mut first = TimeWarpScreen::new(&mut slot, 0, 1000, Some(60), None, 33);
    // the second session wants a monitor but the slot is owned: it runs
    // without one
    let mut second = TimeWarpScreen::new(&mut slot, 0, 200, Some(60), None, 33);
    second.event(&mut slot, quiet_tick(150, 0, 1));
    assert!(matches!(second.state, SessionState::Running));
    second.event(&mut slot, quiet_tick(50, 0, 2));
    assert!(matches!(second.state, SessionState::Completed));
    // the first session still owns the slot
    assert!(slot.acquire().is_none());
    first.on_destroy(&mut slot);
    assert!(slot.acquire().is_some());
}

#[test]
fn teardown_while_running_releases_the_slot() {
    let mut slot = MonitorSlot::new();
    let mut screen = TimeWarpScreen::new(&mut slot, 0, 1000, Some(60), None, 33);
    screen.event(&mut slot, quiet_tick(10, 0, 1));
    assert!(matches!(screen.state, SessionState::Running));
    screen.on_destroy(&mut slot);
    assert!(slot.acquire().is_some());
}

#[test]
fn session_without_threshold_takes_no_slot() {
    let mut slot = MonitorSlot::new();
    let screen = TimeWarpScreen::new(&mut slot, 0, 100, None, None, 33);
    assert!(screen.monitor.is_none());
    assert!(slot.acquire().is_some());
}

use time_warp::jump::{round_to_multiple, JumpOutcome, JumpToTime};

#[test]
fn picker_opens_at_the_current_time() {
    let jump = JumpToTime::new(450, 120, true);
    assert_eq!(jump.target, 450);
    assert_eq!(jump.halt_limit, 120);
    assert!(jump.has_mode);
}

#[test]
fn jumping_forward_warps() {
    let mut jump = JumpToTime::new(100, 60, false);
    jump.target = 500;
    assert!(matches!(jump.decide(100), JumpOutcome::Warp));
    jump.target = 100;
    assert!(matches!(jump.decide(100), JumpOutcome::Warp));
}

#[test]
fn rewinding_needs_a_mode() {
    let mut jump = JumpToTime::new(500, 60, true);
    jump.target = 100;
    assert!(matches!(jump.decide(500), JumpOutcome::ResetThenWarp));
}

#[test]
fn rewinding_without_a_mode_is_refused() {
    let mut jump = JumpToTime::new(500, 60, false);
    jump.target = 100;
    assert!(matches!(jump.decide(500), JumpOutcome::CannotRewind));
}

#[test]
fn slider_time_snaps_to_the_nearest_mark() {
    // the picker snaps to ten-minute marks (600 seconds)
    assert_eq!(round_to_multiple(0, 600), 0);
    assert_eq!(round_to_multiple(299, 600), 0);
    assert_eq!(round_to_multiple(300, 600), 600);
    assert_eq!(round_to_multiple(600, 600), 600);
    assert_eq!(round_to_multiple(899, 600), 600);
    assert_eq!(round_to_multiple(900, 600), 1200);
}

use tx42_keeb::keycode::KeyCode;
use tx42_keeb::resolve::MAX_KEYCODES;
use tx42_keeb::scan::{led_state, ScanTimer, SCAN_PERIOD};

#[test]
fn every_tenth_iteration_scans() {
    assert_eq!(SCAN_PERIOD, 10);
    let mut timer = ScanTimer::new();
    let mut due = Vec::new();
    for iteration in 1..=35 {
        if timer.tick() {
            due.push(iteration);
        }
    }
    assert_eq!(due, vec![10, 20, 30]);
}

#[test]
fn the_led_follows_the_first_slot() {
    let mut keys = [KeyCode::No; MAX_KEYCODES];
    assert!(!led_state(&keys));
    keys[1] = KeyCode::A;
    assert!(!led_state(&keys));
    keys[0] = KeyCode::LShift;
    assert!(led_state(&keys));
}

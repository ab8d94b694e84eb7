use tx42_keeb::keycode::KeyCode;
use tx42_keeb::keys::{count_keys, same_keys, KeyMap, MAX_TAP_COUNT};
use tx42_keeb::layers::{LayerId, NKEY};
use tx42_keeb::resolve::MAX_KEYCODES;

const ALT: usize = 19;
const CTRL: usize = 20;

fn down(indices: &[usize]) -> [bool; NKEY] {
    let mut snapshot = [false; NKEY];
    for &i in indices {
        snapshot[i] = true;
    }
    snapshot
}

fn codes(list: &[KeyCode]) -> [KeyCode; MAX_KEYCODES] {
    let mut keys = [KeyCode::No; MAX_KEYCODES];
    for (slot, code) in list.iter().enumerate() {
        keys[slot] = *code;
    }
    keys
}

/// Presses `index` alone, holds it for `hold` further ticks and releases.
fn tap(keymap: &mut KeyMap, index: usize, hold: usize) {
    keymap.mapkeys(down(&[index]));
    for _ in 0..hold {
        keymap.mapkeys(down(&[index]));
    }
    keymap.mapkeys(down(&[]));
}

#[test]
fn a_new_keymap_is_idle_on_the_first_layer() {
    let keymap = KeyMap::new();
    assert_eq!(keymap.active_layer(), LayerId::One);
    assert_eq!(keymap.tap_candidate(), None);
    assert_eq!(keymap.tap_count(), 0);
}

#[test]
fn the_tap_window_is_fifteen_ticks() {
    assert_eq!(MAX_TAP_COUNT, 15);
}

#[test]
fn advance_taps_climb_to_the_third_layer_and_stop() {
    let mut keymap = KeyMap::new();
    tap(&mut keymap, ALT, 0);
    assert_eq!(keymap.active_layer(), LayerId::Two);
    tap(&mut keymap, ALT, 3);
    assert_eq!(keymap.active_layer(), LayerId::Three);
    tap(&mut keymap, ALT, 1);
    assert_eq!(keymap.active_layer(), LayerId::Three);
    assert_eq!(keymap.tap_candidate(), None);
}

#[test]
fn a_reset_tap_returns_to_the_first_layer() {
    let mut keymap = KeyMap::new();
    tap(&mut keymap, ALT, 0);
    assert_eq!(keymap.active_layer(), LayerId::Two);
    tap(&mut keymap, CTRL, 2);
    assert_eq!(keymap.active_layer(), LayerId::One);

    tap(&mut keymap, ALT, 0);
    tap(&mut keymap, ALT, 0);
    assert_eq!(keymap.active_layer(), LayerId::Three);
    tap(&mut keymap, CTRL, 0);
    assert_eq!(keymap.active_layer(), LayerId::One);
}

#[test]
fn a_reset_tap_on_the_first_layer_changes_nothing() {
    let mut keymap = KeyMap::new();
    tap(&mut keymap, CTRL, 0);
    assert_eq!(keymap.active_layer(), LayerId::One);
    assert_eq!(keymap.tap_candidate(), None);
}

#[test]
fn a_tap_of_an_ordinary_key_changes_nothing() {
    let mut keymap = KeyMap::new();
    assert_eq!(keymap.mapkeys(down(&[1])), codes(&[KeyCode::Q]));
    assert_eq!(keymap.tap_candidate(), Some(KeyCode::Q));
    assert_eq!(keymap.mapkeys(down(&[])), codes(&[]));
    assert_eq!(keymap.active_layer(), LayerId::One);
    assert_eq!(keymap.tap_candidate(), None);
}

#[test]
fn a_second_key_cancels_the_tap() {
    let mut keymap = KeyMap::new();
    keymap.mapkeys(down(&[ALT]));
    assert_eq!(keymap.tap_candidate(), Some(KeyCode::LAlt));
    let out = keymap.mapkeys(down(&[1, ALT]));
    assert_eq!(out, codes(&[KeyCode::Q, KeyCode::LAlt]));
    assert_eq!(keymap.tap_candidate(), None);
    keymap.mapkeys(down(&[ALT]));
    keymap.mapkeys(down(&[]));
    assert_eq!(keymap.active_layer(), LayerId::One);
    assert_eq!(keymap.tap_candidate(), None);
}

#[test]
fn a_cancelled_tap_stays_cancelled_however_long_it_is_held() {
    let mut keymap = KeyMap::new();
    keymap.mapkeys(down(&[ALT]));
    for _ in 0..100 {
        keymap.mapkeys(down(&[2, ALT]));
    }
    keymap.mapkeys(down(&[2]));
    keymap.mapkeys(down(&[]));
    assert_eq!(keymap.active_layer(), LayerId::One);

    let mut quick = KeyMap::new();
    quick.mapkeys(down(&[ALT]));
    quick.mapkeys(down(&[2, ALT]));
    quick.mapkeys(down(&[]));
    assert_eq!(quick.active_layer(), LayerId::One);
}

#[test]
fn a_release_at_the_end_of_the_window_is_a_tap() {
    let mut keymap = KeyMap::new();
    keymap.mapkeys(down(&[ALT]));
    for _ in 0..(MAX_TAP_COUNT - 1) {
        keymap.mapkeys(down(&[ALT]));
    }
    assert_eq!(keymap.tap_count(), MAX_TAP_COUNT - 1);
    keymap.mapkeys(down(&[]));
    assert_eq!(keymap.tap_count(), MAX_TAP_COUNT);
    assert_eq!(keymap.active_layer(), LayerId::Two);
    assert_eq!(keymap.tap_candidate(), None);
}

#[test]
fn a_release_one_tick_after_the_window_is_no_tap() {
    let mut keymap = KeyMap::new();
    keymap.mapkeys(down(&[ALT]));
    for _ in 0..MAX_TAP_COUNT {
        keymap.mapkeys(down(&[ALT]));
    }
    keymap.mapkeys(down(&[]));
    assert_eq!(keymap.tap_count(), MAX_TAP_COUNT + 1);
    assert_eq!(keymap.active_layer(), LayerId::One);
}

#[test]
fn a_late_release_leaves_the_candidate_until_the_next_press() {
    let mut keymap = KeyMap::new();
    tap(&mut keymap, ALT, 40);
    assert_eq!(keymap.active_layer(), LayerId::One);
    assert_eq!(keymap.tap_candidate(), Some(KeyCode::LAlt));
    assert_eq!(keymap.mapkeys(down(&[])), codes(&[]));
    assert_eq!(keymap.mapkeys(down(&[1])), codes(&[KeyCode::Q]));
    assert_eq!(keymap.tap_candidate(), Some(KeyCode::Q));
    assert_eq!(keymap.tap_count(), 0);
}

#[test]
fn the_advance_key_is_blanked_while_it_is_the_candidate() {
    let mut keymap = KeyMap::new();
    assert_eq!(keymap.mapkeys(down(&[ALT])), codes(&[]));
    assert_eq!(keymap.mapkeys(down(&[ALT])), codes(&[]));
    assert_eq!(keymap.tap_candidate(), Some(KeyCode::LAlt));
    assert_eq!(keymap.mapkeys(down(&[])), codes(&[]));
    assert_eq!(keymap.tap_candidate(), None);
}

#[test]
fn blanking_ends_when_the_tap_is_cancelled() {
    let mut keymap = KeyMap::new();
    assert_eq!(keymap.mapkeys(down(&[ALT])), codes(&[]));
    assert_eq!(
        keymap.mapkeys(down(&[0, ALT])),
        codes(&[KeyCode::Tab, KeyCode::LAlt])
    );
    assert_eq!(keymap.mapkeys(down(&[ALT])), codes(&[KeyCode::LAlt]));
}

#[test]
fn other_candidates_are_not_blanked() {
    let mut keymap = KeyMap::new();
    assert_eq!(keymap.mapkeys(down(&[CTRL])), codes(&[KeyCode::LCtrl]));
    assert_eq!(keymap.tap_candidate(), Some(KeyCode::LCtrl));
}

#[test]
fn a_chord_key_pressed_alone_is_no_candidate() {
    let mut keymap = KeyMap::new();
    tap(&mut keymap, ALT, 0);
    assert_eq!(keymap.active_layer(), LayerId::Two);
    assert_eq!(
        keymap.mapkeys(down(&[7])),
        codes(&[KeyCode::LShift, KeyCode::Kb1])
    );
    assert_eq!(keymap.tap_candidate(), None);
}

#[test]
fn a_layer_switch_shows_from_the_next_tick_on() {
    let mut keymap = KeyMap::new();
    assert_eq!(keymap.mapkeys(down(&[1])), codes(&[KeyCode::Q]));
    keymap.mapkeys(down(&[]));
    tap(&mut keymap, ALT, 0);
    assert_eq!(keymap.mapkeys(down(&[1])), codes(&[KeyCode::Kb1]));
    keymap.mapkeys(down(&[]));
    tap(&mut keymap, ALT, 0);
    assert_eq!(keymap.mapkeys(down(&[1])), codes(&[KeyCode::F2]));
}

#[test]
fn the_counter_runs_on_ticks_without_an_edge() {
    let mut keymap = KeyMap::new();
    keymap.mapkeys(down(&[]));
    keymap.mapkeys(down(&[]));
    assert_eq!(keymap.tap_count(), 2);
    keymap.mapkeys(down(&[3]));
    assert_eq!(keymap.tap_count(), 0);
    keymap.mapkeys(down(&[3]));
    assert_eq!(keymap.tap_count(), 1);
    keymap.mapkeys(down(&[3, 4]));
    assert_eq!(keymap.tap_count(), 2);
}

#[test]
fn observe_runs_the_detector_on_given_buffers() {
    let mut keymap = KeyMap::new();
    assert_eq!(keymap.observe(codes(&[KeyCode::LAlt])), codes(&[]));
    assert_eq!(keymap.tap_candidate(), Some(KeyCode::LAlt));
    assert_eq!(keymap.observe(codes(&[])), codes(&[]));
    assert_eq!(keymap.active_layer(), LayerId::Two);

    let gapped = [
        KeyCode::No,
        KeyCode::A,
        KeyCode::No,
        KeyCode::No,
        KeyCode::No,
        KeyCode::No,
        KeyCode::No,
        KeyCode::No,
        KeyCode::No,
        KeyCode::No,
    ];
    assert_eq!(keymap.observe(gapped), gapped);
    assert_eq!(keymap.tap_candidate(), None);
}

#[test]
fn buffers_are_compared_slot_by_slot() {
    assert!(same_keys(&codes(&[]), &codes(&[])));
    assert!(same_keys(
        &codes(&[KeyCode::A, KeyCode::B]),
        &codes(&[KeyCode::A, KeyCode::B])
    ));
    assert!(!same_keys(
        &codes(&[KeyCode::A, KeyCode::B]),
        &codes(&[KeyCode::B, KeyCode::A])
    ));
    let mut last = codes(&[]);
    last[MAX_KEYCODES - 1] = KeyCode::Z;
    assert!(!same_keys(&last, &codes(&[])));
}

#[test]
fn real_codes_are_counted() {
    assert_eq!(count_keys(&codes(&[])), 0);
    assert_eq!(count_keys(&codes(&[KeyCode::LAlt])), 1);
    assert_eq!(count_keys(&codes(&[KeyCode::LShift, KeyCode::Kb1])), 2);
    assert_eq!(count_keys(&[KeyCode::X; MAX_KEYCODES]), 10);
    let mut last = codes(&[]);
    last[MAX_KEYCODES - 1] = KeyCode::Z;
    assert_eq!(count_keys(&last), 1);
}

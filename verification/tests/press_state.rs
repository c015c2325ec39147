use bevy::input::ElementState;
use ezinput::clock;
use ezinput::press_state::PressState;
use std::cmp::Ordering;

const SECOND: u64 = 1_000_000_000;

fn held_since(since: u64) -> PressState {
    PressState::Pressed { started_pressing_instant: Some(since) }
}

fn just_now() -> PressState {
    PressState::Pressed { started_pressing_instant: None }
}

#[test]
fn partial_ord_press_state_test() {
    let a = PressState::Pressed { started_pressing_instant: Some(clock::now()) };
    let b = PressState::Pressed {
        started_pressing_instant: Some(clock::now() + 342534 * SECOND),
    };
    let value = a.cmp(&b);
    assert_eq!(value, Ordering::Less);
}

#[test]
fn just_pressed_comes_before_every_held_press() {
    for since in [0, 1, 5 * SECOND, u64::MAX] {
        assert!(just_now() < held_since(since));
        assert_eq!(just_now().cmp(&held_since(since)), Ordering::Less);
        assert_eq!(just_now().partial_cmp(&held_since(since)), Some(Ordering::Less));
        assert_eq!(held_since(since).partial_cmp(&just_now()), Some(Ordering::Greater));
    }
}

#[test]
fn earlier_press_comes_before_later_press() {
    assert!(held_since(3) < held_since(4));
    assert_eq!(held_since(3).partial_cmp(&held_since(4)), Some(Ordering::Less));
    assert_eq!(held_since(4).partial_cmp(&held_since(3)), Some(Ordering::Greater));
    assert_eq!(held_since(4).cmp(&held_since(3)), Ordering::Greater);
    assert_eq!(held_since(0).cmp(&held_since(u64::MAX)), Ordering::Less);
}

#[test]
fn every_press_comes_before_released() {
    for press in [just_now(), held_since(0), held_since(7), held_since(u64::MAX)] {
        assert!(press < PressState::Released);
        assert_eq!(press.partial_cmp(&PressState::Released), Some(Ordering::Less));
        assert_eq!(PressState::Released.partial_cmp(&press), Some(Ordering::Greater));
        assert_eq!(press.cmp(&PressState::Released), Ordering::Less);
        assert_eq!(PressState::Released.cmp(&press), Ordering::Greater);
    }
}

#[test]
fn equal_states_compare_equal() {
    for state in [just_now(), held_since(0), held_since(9), PressState::Released] {
        assert_eq!(state.partial_cmp(&state), Some(Ordering::Equal));
        assert_eq!(state.cmp(&state), Ordering::Equal);
    }
}

#[test]
fn both_comparisons_agree_on_every_pair() {
    let states = [
        just_now(),
        held_since(0),
        held_since(1),
        held_since(2 * SECOND),
        held_since(u64::MAX),
        PressState::Released,
    ];
    for (i, a) in states.iter().enumerate() {
        for (j, b) in states.iter().enumerate() {
            assert_eq!(a.partial_cmp(b), Some(a.cmp(b)));
            assert_eq!(a.cmp(b), i.cmp(&j));
        }
    }
}

#[test]
fn minimum_of_states_is_the_most_urgent_press() {
    let states = vec![held_since(40), PressState::Released, held_since(7), just_now()];
    assert_eq!(states.iter().min(), Some(&just_now()));
    let held = vec![held_since(40), held_since(7), held_since(12)];
    assert_eq!(held.iter().min(), Some(&held_since(7)));
}

#[test]
fn released_only_for_the_released_variant() {
    assert!(PressState::Released.released());
    assert!(!just_now().released());
    assert!(!held_since(0).released());
    assert!(!held_since(u64::MAX).released());
}

#[test]
fn just_pressed_only_without_a_start() {
    assert!(just_now().just_pressed());
    assert!(!held_since(0).just_pressed());
    assert!(!held_since(12).just_pressed());
    assert!(!PressState::Released.just_pressed());
}

#[test]
fn elapsed_at_is_the_time_since_the_start() {
    assert_eq!(held_since(10).elapsed_at(25), Some(15));
    assert_eq!(held_since(10).elapsed_at(10), Some(0));
    assert_eq!(held_since(0).elapsed_at(u64::MAX), Some(u64::MAX));
    assert_eq!(held_since(2 * SECOND).elapsed_at(5 * SECOND), Some(3 * SECOND));
}

#[test]
fn elapsed_at_is_zero_for_a_clock_before_the_start() {
    assert_eq!(held_since(10).elapsed_at(9), Some(0));
    assert_eq!(held_since(u64::MAX).elapsed_at(0), Some(0));
}

#[test]
fn elapsed_at_is_absent_without_a_start() {
    assert_eq!(just_now().elapsed_at(25), None);
    assert_eq!(PressState::Released.elapsed_at(25), None);
}

#[test]
fn pressed_for_at_compares_elapsed_with_duration() {
    let state = held_since(10 * SECOND);
    assert!(state.pressed_for_at(12 * SECOND, 2 * SECOND));
    assert!(state.pressed_for_at(12 * SECOND, 2 * SECOND - 1));
    assert!(!state.pressed_for_at(12 * SECOND, 2 * SECOND + 1));
    assert!(state.pressed_for_at(12 * SECOND, 0));
    assert!(state.pressed_for_at(10 * SECOND, 0));
    assert!(!state.pressed_for_at(10 * SECOND, 1));
    assert!(!state.pressed_for_at(9 * SECOND, 1));
    assert!(state.pressed_for_at(9 * SECOND, 0));
}

#[test]
fn pressed_for_at_is_false_without_a_start() {
    assert!(!just_now().pressed_for_at(100, 0));
    assert!(!just_now().pressed_for_at(100, 1));
    assert!(!PressState::Released.pressed_for_at(100, 0));
    assert!(!PressState::Released.pressed_for_at(u64::MAX, 0));
}

#[test]
fn pressed_for_is_false_for_released_and_just_pressed() {
    assert!(!PressState::Released.pressed_for(0));
    assert!(!PressState::Released.pressed_for(SECOND));
    assert!(!just_now().pressed_for(0));
    assert!(!just_now().pressed_for(SECOND));
}

#[test]
fn pressed_for_reads_the_clock() {
    let long_ago = held_since(clock::now() - 5 * SECOND);
    assert!(long_ago.pressed_for(0));
    assert!(long_ago.pressed_for(4 * SECOND));
    assert!(!long_ago.pressed_for(3600 * SECOND));
    let in_the_future = held_since(clock::now() + 3600 * SECOND);
    assert!(in_the_future.pressed_for(0));
    assert!(!in_the_future.pressed_for(1));
    assert!(held_since(0).pressed_for(SECOND));
}

#[test]
fn elapsed_reads_the_clock() {
    assert_eq!(PressState::Released.elapsed(), None);
    assert_eq!(just_now().elapsed(), None);
    let elapsed = held_since(clock::now() - 5 * SECOND).elapsed().unwrap();
    assert!(elapsed >= 5 * SECOND);
    assert!(elapsed < 3600 * SECOND);
    assert_eq!(held_since(clock::now() + 3600 * SECOND).elapsed(), Some(0));
}

#[test]
fn clock_counts_nanoseconds_since_the_unix_epoch() {
    let before = std::time::SystemTime::now()
        .duration_since(std::time::UNIX_EPOCH)
        .unwrap()
        .as_nanos();
    let now = clock::now() as u128;
    let after = std::time::SystemTime::now()
        .duration_since(std::time::UNIX_EPOCH)
        .unwrap()
        .as_nanos();
    assert!(before <= now);
    assert!(now <= after);
    assert!(now > 1_600_000_000 * SECOND as u128);
}

#[test]
fn clock_does_not_stand_still_for_long() {
    let first = clock::now();
    let mut second = clock::now();
    let mut readings: u32 = 0;
    while second <= first && readings < 50_000_000 {
        second = clock::now();
        readings += 1;
    }
    assert!(second > first);
}

#[test]
fn timestamp_of_clamps_large_readings() {
    assert_eq!(clock::timestamp_of(Some(0)), 0);
    assert_eq!(clock::timestamp_of(Some(12_345)), 12_345);
    assert_eq!(clock::timestamp_of(Some(u64::MAX as u128)), u64::MAX);
    assert_eq!(clock::timestamp_of(Some(u64::MAX as u128 + 1)), u64::MAX);
    assert_eq!(clock::timestamp_of(Some(u128::MAX)), u64::MAX);
    assert_eq!(clock::timestamp_of(None), 0);
}

#[test]
fn hardware_signal_converts_to_press_state() {
    assert_eq!(PressState::from(ElementState::Pressed), just_now());
    assert_eq!(PressState::from(ElementState::Released), PressState::Released);
    let converted: PressState = ElementState::Pressed.into();
    assert!(converted.just_pressed());
    assert_eq!(converted.elapsed_at(100), None);
    let released: PressState = ElementState::Released.into();
    assert!(released.released());
}

#[test]
fn press_state_walks_through_its_life() {
    let released: PressState = ElementState::Released.into();
    let pressed: PressState = ElementState::Pressed.into();
    let held = held_since(100);
    assert!(released.released() && !released.just_pressed());
    assert!(!pressed.released() && pressed.just_pressed());
    assert!(!held.released() && !held.just_pressed());
    assert!(pressed < held && held < released);
    assert_eq!(held.elapsed_at(130), Some(30));
}

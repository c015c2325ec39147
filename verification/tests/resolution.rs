use ezinput::axis_state::all_axes_pressed;
use ezinput::axis_state::AxisState;
use ezinput::axis_state::DEFAULT_AXIS_VALUE;
use ezinput::axis_state::RESTING_AXIS_VALUE;
use ezinput::press_state::PressState;
use ezinput::resolution::all_pressed;
use ezinput::resolution::least_of;

fn held_since(since: u64) -> PressState {
    PressState::Pressed { started_pressing_instant: Some(since) }
}

fn just_now() -> PressState {
    PressState::Pressed { started_pressing_instant: None }
}

#[test]
fn empty_chord_is_not_pressed() {
    assert!(!all_pressed(&vec![]));
    assert!(!all_axes_pressed(&vec![]));
}

#[test]
fn chord_without_released_member_is_pressed() {
    assert!(all_pressed(&vec![just_now()]));
    assert!(all_pressed(&vec![held_since(3), just_now(), held_since(1)]));
    assert!(all_axes_pressed(&vec![AxisState(3, held_since(3)), AxisState(0, just_now())]));
}

#[test]
fn released_member_blocks_chord_at_any_place() {
    assert!(!all_pressed(&vec![PressState::Released]));
    assert!(!all_pressed(&vec![PressState::Released, just_now(), held_since(1)]));
    assert!(!all_pressed(&vec![just_now(), PressState::Released, held_since(1)]));
    assert!(!all_pressed(&vec![just_now(), held_since(1), PressState::Released]));
    assert!(!all_axes_pressed(&vec![
        AxisState(DEFAULT_AXIS_VALUE, just_now()),
        AxisState(DEFAULT_AXIS_VALUE, PressState::Released),
    ]));
}

#[test]
fn axis_chord_goes_by_digital_component_alone() {
    assert!(all_axes_pressed(&vec![AxisState(RESTING_AXIS_VALUE, held_since(1))]));
    assert!(!all_axes_pressed(&vec![AxisState(DEFAULT_AXIS_VALUE, PressState::Released)]));
}

#[test]
fn least_of_nothing_is_none() {
    assert_eq!(least_of(&vec![]), None);
}

#[test]
fn least_of_one_is_itself() {
    assert_eq!(least_of(&vec![held_since(4)]), Some(held_since(4)));
    assert_eq!(least_of(&vec![PressState::Released]), Some(PressState::Released));
}

#[test]
fn least_of_held_presses_is_the_earliest() {
    assert_eq!(least_of(&vec![held_since(9), held_since(4), held_since(6)]), Some(held_since(4)));
    assert_eq!(least_of(&vec![held_since(4), held_since(9)]), Some(held_since(4)));
    assert_eq!(least_of(&vec![held_since(9), held_since(4)]), Some(held_since(4)));
}

#[test]
fn least_of_chord_with_new_press_is_just_pressed() {
    assert_eq!(least_of(&vec![held_since(9), just_now(), held_since(6)]), Some(just_now()));
    assert_eq!(least_of(&vec![just_now(), held_since(0)]), Some(just_now()));
}

#[test]
fn least_of_agrees_with_the_derived_order() {
    let states = vec![
        held_since(9),
        PressState::Released,
        held_since(2),
        just_now(),
        held_since(2),
    ];
    for end in 1..=states.len() {
        let part = states[..end].to_vec();
        assert_eq!(least_of(&part), part.iter().min().copied());
    }
}

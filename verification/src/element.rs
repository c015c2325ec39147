//! Conversion of the two-valued signal of the capture layer into a press state.
use crate::press_state::PressState;
use bevy::input::ElementState;
use vstd::prelude::*;

verus! {

/// `bevy::input::ElementState`, the two-valued signal of a hardware element. The declaration
/// hides nothing: the verifier reads its two variants, `Pressed` and `Released`, from the type
/// itself.
#[verifier::external_type_specification]
pub struct ExElementState(ElementState);

impl From<ElementState> for PressState {
    /// A pressed element has just been pressed: the signal carries no moment since which it is
    /// held. A released element is released.
    fn from(signal: ElementState) -> (state: PressState) {
        match signal {
            ElementState::Pressed => PressState::Pressed { started_pressing_instant: None },
            ElementState::Released => PressState::Released,
        }
    }
}

impl vstd::std_specs::convert::FromSpecImpl<ElementState> for PressState {
    open spec fn obeys_from_spec() -> bool {
        true
    }

    open spec fn from_spec(signal: ElementState) -> PressState {
        match signal {
            ElementState::Pressed => PressState::Pressed { started_pressing_instant: None },
            ElementState::Released => PressState::Released,
        }
    }
}

} // verus!

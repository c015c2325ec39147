//! The state of an analog receiver.
//!
//! A magnitude is the reading of an axis, a single-precision number of IEEE 754. It is kept as
//! the bit pattern of that number: this library hands magnitudes on and never computes with them.
use crate::press_state::PressState;
use crate::resolution::fully_pressed;
use vstd::prelude::*;

verus! {

/// The bit pattern of the magnitude one, which a receiver has by default.
pub const DEFAULT_AXIS_VALUE: u32 = 0x3f80_0000;

/// The bit pattern of the magnitude zero, which a receiver has that never reported.
pub const RESTING_AXIS_VALUE: u32 = 0;

/// The state of an analog receiver: how far the axis is moved, as the bit pattern of the
/// magnitude, and the digital state that the capture layer derived from it.
#[derive(PartialEq, Eq, Structural, Clone, Copy, Debug)]
pub struct AxisState(pub u32, pub PressState);

/// The digital components of analog states.
pub open spec fn digital_components(states: Seq<AxisState>) -> Seq<PressState> {
    Seq::new(states.len(), |i: int| states[i].1)
}

/// Whether a chord whose members have these analog states is fully pressed: it has a member, and
/// the digital component of none of its members is released.
pub fn all_axes_pressed(states: &Vec<AxisState>) -> (pressed: bool)
    ensures
        pressed == fully_pressed(digital_components(states@)),
{
    if states.len() == 0 {
        return false;
    }
    let mut i: usize = 0;
    while i < states.len()
        invariant
            i <= states.len(),
            forall|k: int|
                0 <= k < i ==> (#[trigger] digital_components(states@)[k]) != PressState::Released,
        decreases states.len() - i,
    {
        if states[i].1.released() {
            assert(digital_components(states@)[i as int] == PressState::Released);
            return false;
        }
        i += 1;
    }
    true
}

} // verus!

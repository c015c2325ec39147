//! Resolution of logical input actions from the states of physical input receivers.

pub mod axis_state;
pub mod binding;
pub mod clock;
pub mod element;
pub mod input_source;
pub mod press_state;
pub mod resolution;
pub mod view;

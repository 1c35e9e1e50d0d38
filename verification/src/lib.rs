//! Input abstraction for games with keyboard and gamepad controls.
//!
//! Physical input sources (keys, gamepad buttons, axis directions) are
//! combined, once per frame, into game-defined controls and two-axis pairs:
//!
//! - an [`InputSource`] is one physical control, read through an
//!   [`InputProvider`] as a value from zero to full deflection;
//! - a [`Control`] adds up the sources mapped to it, as far as they belong
//!   to the device in use, and applies the deadzone;
//! - a [`Pair`] combines four controls (left, right, up, down) into a vector
//!   that is never longer than full deflection;
//! - a [`PlayerInput`] owns the controls and pairs of one player and runs
//!   the frame: it settles the device in use, then updates every control,
//!   then derives every pair.
//!
//! Analog values are fixed-point integers: [`UNIT`] stands for 1.0. The
//! contracts are stated over these integers and hold exactly.

pub mod analog;
pub mod control;
pub mod device;
pub mod input_source;
pub mod pair;
pub mod player_input;
pub mod traits;

pub use analog::UNIT;
pub use control::Control;
pub use device::{DeviceState, GamepadState};
pub use input_source::{
    AxisDirection, GamepadAxis, GamepadButton, GamepadInput, InputKind, InputSource, Key,
};
pub use pair::{DeadzoneShape, Pair};
pub use player_input::{InputConfig, PairControls, PlayerInput};
pub use traits::{ControlKind, DefaultPairKind, InputProvider, StickKind};

use vstd::prelude::*;
use crate::analog::UNIT;
use crate::input_source::{AxisDirection, GamepadAxis, GamepadButton, InputSource, Key};
use crate::traits::InputProvider;

verus! {

/// The state of one gamepad in a frame: the buttons that are held, and the
/// position of each axis in fixed-point units, from `-UNIT` to `UNIT`.
#[derive(Debug, PartialEq, Eq)]
pub struct GamepadState {
    pub buttons_down: Vec<GamepadButton>,
    pub left_stick_x: i32,
    pub left_stick_y: i32,
    pub left_trigger: i32,
    pub right_stick_x: i32,
    pub right_stick_y: i32,
    pub right_trigger: i32,
}

/// The state of the input devices in a frame: the keys that are held, and
/// the gamepads by their identifier. A gamepad that is not listed is
/// disconnected.
#[derive(Debug, PartialEq, Eq)]
pub struct DeviceState {
    pub keys_down: Vec<Key>,
    pub gamepads: Vec<GamepadState>,
}

/// The sample of a key or button: full deflection while held, zero
/// otherwise.
pub open spec fn digital(down: bool) -> u32 {
    if down {
        UNIT
    } else {
        0
    }
}

/// The sample of one direction of an axis: how far the axis is moved in
/// that direction, zero where it is moved in the other.
pub open spec fn projected(position: i32, direction: AxisDirection) -> u32 {
    let along = position * direction.spec_sign();
    if along > 0 {
        along as u32
    } else {
        0
    }
}

impl AxisDirection {
    /// `-1` for the negative direction, `1` for the positive one.
    pub open spec fn spec_sign(self) -> int {
        match self {
            AxisDirection::Negative => -1,
            AxisDirection::Positive => 1,
        }
    }

    /// Returns the sign of this direction.
    pub fn sign(self) -> (sign: i64)
        ensures
            sign == self.spec_sign(),
    {
        match self {
            AxisDirection::Negative => -1,
            AxisDirection::Positive => 1,
        }
    }
}

/// Projects an axis position onto a direction.
pub fn project(position: i32, direction: AxisDirection) -> (sample: u32)
    ensures
        sample == projected(position, direction),
{
    let along: i64 = position as i64 * direction.sign();
    if along > 0 {
        along as u32
    } else {
        0
    }
}

impl GamepadState {
    /// The position of an axis.
    pub open spec fn spec_position(&self, axis: GamepadAxis) -> i32 {
        match axis {
            GamepadAxis::LeftStickX => self.left_stick_x,
            GamepadAxis::LeftStickY => self.left_stick_y,
            GamepadAxis::LeftTrigger => self.left_trigger,
            GamepadAxis::RightStickX => self.right_stick_x,
            GamepadAxis::RightStickY => self.right_stick_y,
            GamepadAxis::RightTrigger => self.right_trigger,
        }
    }

    /// Returns the position of an axis.
    #[verifier::when_used_as_spec(spec_position)]
    pub fn position(&self, axis: GamepadAxis) -> (position: i32)
        ensures
            position == self.spec_position(axis),
    {
        match axis {
            GamepadAxis::LeftStickX => self.left_stick_x,
            GamepadAxis::LeftStickY => self.left_stick_y,
            GamepadAxis::LeftTrigger => self.left_trigger,
            GamepadAxis::RightStickX => self.right_stick_x,
            GamepadAxis::RightStickY => self.right_stick_y,
            GamepadAxis::RightTrigger => self.right_trigger,
        }
    }

    /// Returns true if the button is held.
    pub fn is_button_down(&self, button: GamepadButton) -> (down: bool)
        ensures
            down == self.buttons_down@.contains(button),
    {
        let mut i: usize = 0;
        while i < self.buttons_down.len()
            invariant
                i <= self.buttons_down.len(),
                forall|k: int| 0 <= k < i ==> self.buttons_down@[k] != button,
            decreases self.buttons_down.len() - i,
        {
            if self.buttons_down[i] == button {
                return true;
            }
            i = i + 1;
        }
        false
    }
}

impl DeviceState {
    /// Returns true if the key is held.
    pub fn is_key_down(&self, key: Key) -> (down: bool)
        ensures
            down == self.keys_down@.contains(key),
    {
        let mut i: usize = 0;
        while i < self.keys_down.len()
            invariant
                i <= self.keys_down.len(),
                forall|k: int| 0 <= k < i ==> self.keys_down@[k] != key,
            decreases self.keys_down.len() - i,
        {
            if self.keys_down[i] == key {
                return true;
            }
            i = i + 1;
        }
        false
    }
}

impl InputSource {
    /// What this source reports in the given device state, read with the
    /// given gamepad: a key or button reports full deflection while held,
    /// an axis direction how far the axis is moved in it. Without a
    /// gamepad, or with one that is disconnected, buttons and axes report
    /// zero.
    pub open spec fn spec_get(&self, device: &DeviceState, gamepad_id: Option<usize>) -> u32 {
        match *self {
            InputSource::Key(key) => digital(device.keys_down@.contains(key)),
            InputSource::Button(button) => match gamepad_id {
                Some(id) if id < device.gamepads@.len() => digital(
                    device.gamepads@[id as int].buttons_down@.contains(button),
                ),
                _ => 0,
            },
            InputSource::Axis(axis, direction) => match gamepad_id {
                Some(id) if id < device.gamepads@.len() => projected(
                    device.gamepads@[id as int].spec_position(axis),
                    direction,
                ),
                _ => 0,
            },
        }
    }

    /// Samples this source in the given device state.
    #[verifier::when_used_as_spec(spec_get)]
    pub fn get(&self, device: &DeviceState, gamepad_id: Option<usize>) -> (sample: u32)
        ensures
            sample == self.spec_get(device, gamepad_id),
    {
        match *self {
            InputSource::Key(key) => {
                if device.is_key_down(key) {
                    UNIT
                } else {
                    0
                }
            },
            InputSource::Button(button) => {
                if let Some(id) = gamepad_id {
                    if id < device.gamepads.len() && device.gamepads[id].is_button_down(button) {
                        UNIT
                    } else {
                        0
                    }
                } else {
                    0
                }
            },
            InputSource::Axis(axis, direction) => {
                if let Some(id) = gamepad_id {
                    if id < device.gamepads.len() {
                        project(device.gamepads[id].position(axis), direction)
                    } else {
                        0
                    }
                } else {
                    0
                }
            },
        }
    }
}

impl InputProvider for DeviceState {
    open spec fn reading(&self, source: InputSource, gamepad: Option<usize>) -> u32 {
        source.spec_get(self, gamepad)
    }

    fn raw_value(&self, source: InputSource, gamepad: Option<usize>) -> (r: u32) {
        source.get(self, gamepad)
    }
}

} // verus!

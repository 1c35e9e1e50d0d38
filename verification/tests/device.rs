use baton::device::project;
use baton::{
    AxisDirection, DeviceState, GamepadAxis, GamepadButton, GamepadState, InputProvider,
    InputSource, Key, UNIT,
};

fn pad(buttons: Vec<GamepadButton>, left_x: i32, left_y: i32, trigger: i32) -> GamepadState {
    GamepadState {
        buttons_down: buttons,
        left_stick_x: left_x,
        left_stick_y: left_y,
        left_trigger: trigger,
        right_stick_x: 0,
        right_stick_y: 0,
        right_trigger: 0,
    }
}

#[test]
fn direction_signs() {
    assert_eq!(AxisDirection::Negative.sign(), -1);
    assert_eq!(AxisDirection::Positive.sign(), 1);
}

#[test]
fn projection_keeps_movement_along_the_direction() {
    assert_eq!(project(300_000, AxisDirection::Positive), 300_000);
    assert_eq!(project(-300_000, AxisDirection::Negative), 300_000);
}

#[test]
fn projection_drops_movement_against_the_direction() {
    assert_eq!(project(-300_000, AxisDirection::Positive), 0);
    assert_eq!(project(300_000, AxisDirection::Negative), 0);
    assert_eq!(project(0, AxisDirection::Negative), 0);
    assert_eq!(project(0, AxisDirection::Positive), 0);
}

#[test]
fn projection_handles_the_whole_range() {
    assert_eq!(project(i32::MIN, AxisDirection::Negative), 2_147_483_648);
    assert_eq!(project(i32::MAX, AxisDirection::Positive), 2_147_483_647);
    assert_eq!(project(i32::MIN, AxisDirection::Positive), 0);
}

#[test]
fn held_key_reads_as_full() {
    let device = DeviceState { keys_down: vec![Key::A, Key::Space], gamepads: vec![] };
    assert!(device.is_key_down(Key::Space));
    assert!(!device.is_key_down(Key::B));
    assert_eq!(InputSource::Key(Key::A).get(&device, None), UNIT);
    assert_eq!(InputSource::Key(Key::Space).get(&device, Some(3)), UNIT);
    assert_eq!(InputSource::Key(Key::B).get(&device, None), 0);
}

#[test]
fn held_button_reads_as_full_on_its_gamepad() {
    let device = DeviceState {
        keys_down: vec![],
        gamepads: vec![pad(vec![], 0, 0, 0), pad(vec![GamepadButton::A], 0, 0, 0)],
    };
    assert!(device.gamepads[1].is_button_down(GamepadButton::A));
    assert!(!device.gamepads[1].is_button_down(GamepadButton::B));
    assert_eq!(InputSource::Button(GamepadButton::A).get(&device, Some(1)), UNIT);
    assert_eq!(InputSource::Button(GamepadButton::A).get(&device, Some(0)), 0);
    assert_eq!(InputSource::Button(GamepadButton::B).get(&device, Some(1)), 0);
}

#[test]
fn gamepad_sources_read_zero_without_a_gamepad() {
    let device = DeviceState {
        keys_down: vec![],
        gamepads: vec![pad(vec![GamepadButton::A], 900_000, 0, 0)],
    };
    assert_eq!(InputSource::Button(GamepadButton::A).get(&device, None), 0);
    assert_eq!(
        InputSource::Axis(GamepadAxis::LeftStickX, AxisDirection::Positive).get(&device, None),
        0
    );
}

#[test]
fn gamepad_sources_read_zero_on_a_disconnected_gamepad() {
    let device = DeviceState {
        keys_down: vec![],
        gamepads: vec![pad(vec![GamepadButton::A], 900_000, 0, 0)],
    };
    assert_eq!(InputSource::Button(GamepadButton::A).get(&device, Some(1)), 0);
    assert_eq!(
        InputSource::Axis(GamepadAxis::LeftStickX, AxisDirection::Positive).get(&device, Some(5)),
        0
    );
}

#[test]
fn axis_sources_read_their_direction() {
    let device = DeviceState {
        keys_down: vec![],
        gamepads: vec![pad(vec![], -400_000, 250_000, 750_000)],
    };
    let read = |axis, direction| InputSource::Axis(axis, direction).get(&device, Some(0));
    assert_eq!(read(GamepadAxis::LeftStickX, AxisDirection::Negative), 400_000);
    assert_eq!(read(GamepadAxis::LeftStickX, AxisDirection::Positive), 0);
    assert_eq!(read(GamepadAxis::LeftStickY, AxisDirection::Positive), 250_000);
    assert_eq!(read(GamepadAxis::LeftStickY, AxisDirection::Negative), 0);
    assert_eq!(read(GamepadAxis::LeftTrigger, AxisDirection::Positive), 750_000);
    assert_eq!(read(GamepadAxis::RightStickX, AxisDirection::Positive), 0);
}

#[test]
fn every_axis_has_its_own_position() {
    let state = GamepadState {
        buttons_down: vec![],
        left_stick_x: 1,
        left_stick_y: 2,
        left_trigger: 3,
        right_stick_x: 4,
        right_stick_y: 5,
        right_trigger: 6,
    };
    assert_eq!(state.position(GamepadAxis::LeftStickX), 1);
    assert_eq!(state.position(GamepadAxis::LeftStickY), 2);
    assert_eq!(state.position(GamepadAxis::LeftTrigger), 3);
    assert_eq!(state.position(GamepadAxis::RightStickX), 4);
    assert_eq!(state.position(GamepadAxis::RightStickY), 5);
    assert_eq!(state.position(GamepadAxis::RightTrigger), 6);
}

#[test]
fn device_state_is_a_provider() {
    let device = DeviceState {
        keys_down: vec![Key::W],
        gamepads: vec![pad(vec![GamepadButton::X], 0, -1_000_000, 0)],
    };
    assert_eq!(device.raw_value(InputSource::Key(Key::W), None), UNIT);
    assert_eq!(device.raw_value(InputSource::Button(GamepadButton::X), Some(0)), UNIT);
    assert_eq!(
        device.raw_value(
            InputSource::Axis(GamepadAxis::LeftStickY, AxisDirection::Negative),
            Some(0)
        ),
        UNIT
    );
    assert_eq!(device.raw_value(InputSource::Button(GamepadButton::X), None), 0);
}

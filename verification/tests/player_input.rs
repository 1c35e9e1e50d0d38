use baton::{
    AxisDirection, ControlKind, DeadzoneShape, DefaultPairKind, DeviceState, GamepadAxis,
    GamepadButton,
    GamepadInput, GamepadState, InputConfig, InputKind, InputProvider, InputSource, Key,
    PlayerInput, StickKind, UNIT,
};

#[derive(Debug, Clone, Copy, PartialEq, Eq)]
enum Action {
    Left,
    Right,
    Up,
    Down,
    Jump,
    Idle,
}

const ACTIONS: [Action; 6] =
    [Action::Left, Action::Right, Action::Up, Action::Down, Action::Jump, Action::Idle];

impl ControlKind for Action {
    fn count() -> usize {
        ACTIONS.len()
    }

    fn kind_at(i: usize) -> Self {
        ACTIONS[i]
    }

    fn position(&self) -> usize {
        self.index()
    }

    fn all() -> Vec<Self> {
        ACTIONS.to_vec()
    }

    fn index(&self) -> usize {
        match self {
            Action::Left => 0,
            Action::Right => 1,
            Action::Up => 2,
            Action::Down => 3,
            Action::Jump => 4,
            Action::Idle => 5,
        }
    }
}

#[derive(Debug, Clone, Copy, PartialEq, Eq)]
enum Stick {
    Move,
    Flipped,
}

impl StickKind<Action> for Stick {
    fn count() -> usize {
        2
    }

    fn kind_at(i: usize) -> Self {
        [Stick::Move, Stick::Flipped][i]
    }

    fn position(&self) -> usize {
        self.index()
    }

    fn declared(&self) -> bool {
        true
    }

    fn wiring(&self) -> (Action, Action, Action, Action) {
        self.controls()
    }

    fn all() -> Vec<Self> {
        vec![Stick::Move, Stick::Flipped]
    }

    fn index(&self) -> usize {
        match self {
            Stick::Move => 0,
            Stick::Flipped => 1,
        }
    }

    fn controls(&self) -> (Action, Action, Action, Action) {
        match self {
            Stick::Move => (Action::Left, Action::Right, Action::Up, Action::Down),
            Stick::Flipped => (Action::Right, Action::Left, Action::Down, Action::Up),
        }
    }
}

/// A provider that reports a fixed value for each listed source.
struct Readings(Vec<(InputSource, u32)>);

impl InputProvider for Readings {
    fn reading(&self, source: InputSource, gamepad: Option<usize>) -> u32 {
        self.raw_value(source, gamepad)
    }

    fn raw_value(&self, source: InputSource, _gamepad: Option<usize>) -> u32 {
        for (listed, value) in &self.0 {
            if *listed == source {
                return *value;
            }
        }
        0
    }
}

fn key(k: Key) -> InputSource {
    InputSource::Key(k)
}

fn pad(input: GamepadInput) -> InputSource {
    input.source()
}

fn config(deadzone: u32, shape: DeadzoneShape) -> InputConfig {
    let mut config = InputConfig::default();
    config.deadzone = deadzone;
    config.deadzone_shape = shape;
    config.map(Action::Left, vec![key(Key::A), pad(GamepadInput::LeftStickLeft)]);
    config.map(Action::Right, vec![key(Key::D), pad(GamepadInput::LeftStickRight)]);
    config.map(Action::Up, vec![key(Key::W), pad(GamepadInput::LeftStickUp)]);
    config.map(Action::Down, vec![key(Key::S), pad(GamepadInput::LeftStickDown)]);
    config.map(Action::Jump, vec![key(Key::X), key(Key::Space), pad(GamepadInput::A)]);
    config
}

fn player(deadzone: u32, shape: DeadzoneShape) -> PlayerInput<Action, Stick> {
    PlayerInput::new(config(deadzone, shape))
}

#[test]
fn default_config_has_half_deadzone_and_circle() {
    let config = InputConfig::default();
    assert!(config.control_mapping.is_empty());
    assert_eq!(config.deadzone, 500_000);
    assert_eq!(config.deadzone_shape, DeadzoneShape::Circle);
}

#[test]
fn mapping_a_control_fills_its_row() {
    let mut config = InputConfig::default();
    config.map(Action::Up, vec![key(Key::W)]);
    assert_eq!(config.control_mapping.len(), 3);
    assert!(config.control_mapping[0].is_empty());
    assert!(config.control_mapping[1].is_empty());
    assert_eq!(config.control_mapping[2], vec![key(Key::W)]);
    config.map(Action::Left, vec![key(Key::A), key(Key::Left)]);
    assert_eq!(config.control_mapping.len(), 3);
    assert_eq!(config.control_mapping[0], vec![key(Key::A), key(Key::Left)]);
    assert_eq!(config.control_mapping[2], vec![key(Key::W)]);
    config.map(Action::Up, vec![key(Key::Up)]);
    assert_eq!(config.control_mapping[2], vec![key(Key::Up)]);
    assert_eq!(config.deadzone, 500_000);
}

#[test]
fn new_player_is_at_rest_on_the_keyboard() {
    let input = player(UNIT / 2, DeadzoneShape::Circle);
    assert_eq!(input.active_input_kind(), InputKind::Keyboard);
    assert_eq!(input.gamepad(), None);
    for action in ACTIONS {
        assert_eq!(input.control(action).raw_value(), 0);
        assert_eq!(input.control(action).value(), 0);
        assert!(!input.control(action).pressed());
    }
    assert_eq!(input.pair(Stick::Move).raw_value(), (0, 0));
    assert_eq!(input.pair(Stick::Flipped).value(), (0, 0));
}

#[test]
fn set_gamepad_assigns_and_unsets() {
    let mut input = player(UNIT / 2, DeadzoneShape::Circle);
    input.set_gamepad(Some(2));
    assert_eq!(input.gamepad(), Some(2));
    input.set_gamepad(None);
    assert_eq!(input.gamepad(), None);
}

#[test]
fn unmapped_control_reports_zero_every_frame() {
    let mut input = player(0, DeadzoneShape::Circle);
    let frames = [
        Readings(vec![(key(Key::A), UNIT), (key(Key::X), UNIT)]),
        Readings(vec![(pad(GamepadInput::A), UNIT)]),
        Readings(vec![]),
    ];
    for frame in &frames {
        input.update(frame);
        assert_eq!(input.control(Action::Idle).raw_value(), 0);
        assert_eq!(input.control(Action::Idle).value(), 0);
        assert!(!input.control(Action::Idle).down());
    }
}

#[test]
fn two_full_sources_sum_to_one() {
    let mut input = player(UNIT / 2, DeadzoneShape::Circle);
    input.update(&Readings(vec![(key(Key::X), UNIT), (key(Key::Space), UNIT)]));
    assert_eq!(input.control(Action::Jump).raw_value(), UNIT);
    assert_eq!(input.control(Action::Jump).value(), UNIT);
}

#[test]
fn control_at_the_deadzone_reports_its_raw_value() {
    let mut input = player(250_000, DeadzoneShape::Circle);
    input.set_gamepad(Some(0));
    // Bring the gamepad into use.
    input.update(&Readings(vec![(pad(GamepadInput::A), UNIT)]));
    assert_eq!(input.active_input_kind(), InputKind::Gamepad);
    input.update(&Readings(vec![(pad(GamepadInput::LeftStickLeft), 250_000)]));
    assert_eq!(input.control(Action::Left).raw_value(), 250_000);
    assert_eq!(input.control(Action::Left).value(), 250_000);
    input.update(&Readings(vec![(pad(GamepadInput::LeftStickLeft), 249_999)]));
    assert_eq!(input.control(Action::Left).raw_value(), 249_999);
    assert_eq!(input.control(Action::Left).value(), 0);
}

#[test]
fn a_sample_at_the_deadzone_does_not_switch_the_device() {
    let mut input = player(250_000, DeadzoneShape::Circle);
    input.update(&Readings(vec![(pad(GamepadInput::LeftStickLeft), 250_000)]));
    assert_eq!(input.active_input_kind(), InputKind::Keyboard);
    assert_eq!(input.control(Action::Left).raw_value(), 0);
    input.update(&Readings(vec![(pad(GamepadInput::LeftStickLeft), 250_001)]));
    assert_eq!(input.active_input_kind(), InputKind::Gamepad);
    assert_eq!(input.control(Action::Left).raw_value(), 250_001);
}

#[test]
fn active_device_is_sticky() {
    let mut input = player(UNIT / 2, DeadzoneShape::Circle);
    input.update(&Readings(vec![]));
    assert_eq!(input.active_input_kind(), InputKind::Keyboard);
    input.update(&Readings(vec![(pad(GamepadInput::A), UNIT)]));
    assert_eq!(input.active_input_kind(), InputKind::Gamepad);
    input.update(&Readings(vec![]));
    assert_eq!(input.active_input_kind(), InputKind::Gamepad);
    input.update(&Readings(vec![(pad(GamepadInput::A), 100_000)]));
    assert_eq!(input.active_input_kind(), InputKind::Gamepad);
    input.update(&Readings(vec![(key(Key::S), UNIT)]));
    assert_eq!(input.active_input_kind(), InputKind::Keyboard);
    input.update(&Readings(vec![]));
    assert_eq!(input.active_input_kind(), InputKind::Keyboard);
}

#[test]
fn keyboard_wins_over_gamepad_in_the_same_frame() {
    let mut input = player(UNIT / 2, DeadzoneShape::Circle);
    input.update(&Readings(vec![(pad(GamepadInput::A), UNIT)]));
    assert_eq!(input.active_input_kind(), InputKind::Gamepad);
    input.update(&Readings(vec![
        (pad(GamepadInput::LeftStickLeft), 800_000),
        (pad(GamepadInput::A), UNIT),
        (key(Key::S), UNIT),
    ]));
    assert_eq!(input.active_input_kind(), InputKind::Keyboard);
    assert_eq!(input.control(Action::Left).raw_value(), 0);
    assert_eq!(input.control(Action::Jump).raw_value(), 0);
    assert_eq!(input.control(Action::Down).raw_value(), UNIT);
    assert_eq!(input.pair(Stick::Move).raw_value(), (0, 1_000_000));
}

#[test]
fn unmapped_sources_do_not_switch_the_device() {
    let mut input = player(UNIT / 2, DeadzoneShape::Circle);
    input.update(&Readings(vec![(pad(GamepadInput::Guide), UNIT)]));
    assert_eq!(input.active_input_kind(), InputKind::Keyboard);
}

#[test]
fn pressed_and_released_follow_the_transitions() {
    let mut input = player(UNIT / 2, DeadzoneShape::Circle);
    let held = Readings(vec![(key(Key::X), UNIT)]);
    let idle = Readings(vec![]);
    input.update(&idle);
    assert!(!input.control(Action::Jump).pressed());
    input.update(&held);
    assert!(input.control(Action::Jump).pressed());
    assert!(input.control(Action::Jump).down());
    input.update(&held);
    assert!(!input.control(Action::Jump).pressed());
    assert!(input.control(Action::Jump).down());
    input.update(&idle);
    assert!(input.control(Action::Jump).released());
    assert!(!input.control(Action::Jump).down());
    input.update(&idle);
    assert!(!input.control(Action::Jump).released());
}

#[test]
fn update_twice_on_the_same_readings_is_idempotent() {
    let mut input = player(200_000, DeadzoneShape::Circle);
    let frame = Readings(vec![
        (pad(GamepadInput::LeftStickRight), 900_000),
        (pad(GamepadInput::LeftStickDown), 800_000),
        (pad(GamepadInput::A), UNIT),
    ]);
    input.update(&frame);
    let kind = input.active_input_kind();
    let values: Vec<(u32, u32)> =
        ACTIONS.iter().map(|a| (input.control(*a).raw_value(), input.control(*a).value())).collect();
    let pairs = (input.pair(Stick::Move).raw_value(), input.pair(Stick::Move).value());
    assert!(input.control(Action::Jump).pressed());
    assert!(input.control(Action::Right).pressed());
    input.update(&frame);
    assert_eq!(input.active_input_kind(), kind);
    for (i, action) in ACTIONS.iter().enumerate() {
        assert_eq!(input.control(*action).raw_value(), values[i].0);
        assert_eq!(input.control(*action).value(), values[i].1);
        assert!(!input.control(*action).pressed());
        assert!(!input.control(*action).released());
    }
    assert_eq!((input.pair(Stick::Move).raw_value(), input.pair(Stick::Move).value()), pairs);
    assert_eq!(values[1], (900_000, 900_000));
}

#[test]
fn pairs_follow_the_controls_of_the_same_frame() {
    let mut input = player(200_000, DeadzoneShape::Circle);
    input.update(&Readings(vec![(key(Key::D), UNIT)]));
    assert_eq!(input.pair(Stick::Move).raw_value(), (1_000_000, 0));
    assert_eq!(input.pair(Stick::Flipped).raw_value(), (-1_000_000, 0));
    input.update(&Readings(vec![(key(Key::W), UNIT)]));
    assert_eq!(input.pair(Stick::Move).raw_value(), (0, -1_000_000));
    assert_eq!(input.pair(Stick::Flipped).raw_value(), (0, 1_000_000));
    input.update(&Readings(vec![]));
    assert_eq!(input.pair(Stick::Move).raw_value(), (0, 0));
    assert_eq!(input.pair(Stick::Move).value(), (0, 0));
}

#[test]
fn diagonal_pair_is_clamped_to_unit_length() {
    let mut input = player(200_000, DeadzoneShape::Circle);
    input.update(&Readings(vec![(key(Key::D), UNIT), (key(Key::S), UNIT)]));
    let (x, y) = input.pair(Stick::Move).raw_value();
    assert_eq!((x, y), (707_106, 707_106));
    assert!((x as i64) * (x as i64) + (y as i64) * (y as i64) <= 1_000_000_000_000);
    assert_eq!(input.pair(Stick::Move).value(), (707_106, 707_106));
    assert_eq!(input.pair(Stick::Flipped).raw_value(), (-707_106, -707_106));
}

#[test]
fn circle_and_square_deadzones_diverge() {
    let frames = [
        Readings(vec![(pad(GamepadInput::A), UNIT)]),
        Readings(vec![
            (pad(GamepadInput::LeftStickRight), 400_000),
            (pad(GamepadInput::LeftStickDown), 400_000),
            (pad(GamepadInput::A), UNIT),
        ]),
    ];
    let mut circle = player(500_000, DeadzoneShape::Circle);
    let mut square = player(500_000, DeadzoneShape::Square);
    for frame in &frames {
        circle.update(frame);
        square.update(frame);
    }
    assert_eq!(circle.pair(Stick::Move).raw_value(), (400_000, 400_000));
    assert_eq!(circle.pair(Stick::Move).value(), (400_000, 400_000));
    assert_eq!(square.pair(Stick::Move).raw_value(), (400_000, 400_000));
    assert_eq!(square.pair(Stick::Move).value(), (0, 0));
}

#[test]
fn sample_is_laid_out_as_the_mapping() {
    let input = player(200_000, DeadzoneShape::Circle);
    let samples = input.sample(&Readings(vec![
        (key(Key::A), 5),
        (pad(GamepadInput::LeftStickRight), 6),
        (key(Key::Space), 7),
    ]));
    assert_eq!(
        samples,
        vec![vec![5, 0], vec![0, 6], vec![0, 0], vec![0, 0], vec![0, 7, 0]]
    );
}

#[test]
fn update_from_samples_runs_a_frame() {
    let mut input = player(200_000, DeadzoneShape::Square);
    input.update_from_samples(&vec![
        vec![0, 0],
        vec![600_000, 0],
        vec![0, 0],
        vec![300_000, 0],
        vec![UNIT, UNIT, 0],
    ]);
    assert_eq!(input.active_input_kind(), InputKind::Keyboard);
    assert_eq!(input.control(Action::Right).value(), 600_000);
    assert_eq!(input.control(Action::Down).value(), 300_000);
    assert_eq!(input.control(Action::Jump).value(), UNIT);
    assert_eq!(input.pair(Stick::Move).value(), (600_000, 300_000));
}

#[test]
fn missing_samples_count_as_rest_in_a_frame() {
    let mut input = player(200_000, DeadzoneShape::Square);
    input.update_from_samples(&vec![vec![UNIT]]);
    assert_eq!(input.control(Action::Left).value(), UNIT);
    assert_eq!(input.control(Action::Right).value(), 0);
    assert_eq!(input.control(Action::Jump).value(), 0);
    input.update_from_samples(&vec![]);
    assert_eq!(input.control(Action::Left).value(), 0);
    assert!(input.control(Action::Left).released());
}

#[test]
fn device_state_drives_a_frame() {
    let mut input = player(250_000, DeadzoneShape::Circle);
    input.set_gamepad(Some(0));
    let device = DeviceState {
        keys_down: vec![],
        gamepads: vec![GamepadState {
            buttons_down: vec![GamepadButton::A],
            left_stick_x: -600_000,
            left_stick_y: 300_000,
            left_trigger: 0,
            right_stick_x: 0,
            right_stick_y: 0,
            right_trigger: 0,
        }],
    };
    input.update(&device);
    assert_eq!(input.active_input_kind(), InputKind::Gamepad);
    assert_eq!(input.control(Action::Left).value(), 600_000);
    assert_eq!(input.control(Action::Right).value(), 0);
    assert_eq!(input.control(Action::Down).value(), 300_000);
    assert_eq!(input.control(Action::Jump).value(), UNIT);
    assert!(input.control(Action::Jump).pressed());
    assert_eq!(input.pair(Stick::Move).value(), (-600_000, 300_000));
}

#[test]
fn gamepad_is_silent_without_an_assigned_gamepad() {
    let mut input = player(250_000, DeadzoneShape::Circle);
    let device = DeviceState {
        keys_down: vec![],
        gamepads: vec![GamepadState {
            buttons_down: vec![GamepadButton::A],
            left_stick_x: 1_000_000,
            left_stick_y: 0,
            left_trigger: 0,
            right_stick_x: 0,
            right_stick_y: 0,
            right_trigger: 0,
        }],
    };
    input.update(&device);
    assert_eq!(input.active_input_kind(), InputKind::Keyboard);
    assert_eq!(input.control(Action::Jump).value(), 0);
    assert_eq!(input.control(Action::Right).value(), 0);
}

#[test]
fn axis_source_feeds_a_control() {
    let mut config = InputConfig::default();
    config.map(
        Action::Jump,
        vec![InputSource::Axis(GamepadAxis::RightTrigger, AxisDirection::Positive)],
    );
    let mut input: PlayerInput<Action, Stick> = PlayerInput::new(config);
    input.set_gamepad(Some(0));
    let device = DeviceState {
        keys_down: vec![Key::A],
        gamepads: vec![GamepadState {
            buttons_down: vec![],
            left_stick_x: 0,
            left_stick_y: 0,
            left_trigger: 0,
            right_stick_x: 0,
            right_stick_y: 0,
            right_trigger: 750_000,
        }],
    };
    input.update(&device);
    assert_eq!(input.active_input_kind(), InputKind::Gamepad);
    assert_eq!(input.control(Action::Jump).raw_value(), 750_000);
    assert_eq!(input.control(Action::Jump).value(), 750_000);
}

#[test]
fn default_pair_kind_declares_no_pairs() {
    let kinds = <DefaultPairKind as StickKind<Action>>::all();
    assert!(kinds.is_empty());
}

#[test]
fn player_without_pairs_updates_its_controls() {
    let mut input: PlayerInput<Action> = PlayerInput::new(config(UNIT / 2, DeadzoneShape::Circle));
    input.update(&Readings(vec![(key(Key::X), UNIT)]));
    assert_eq!(input.control(Action::Jump).value(), UNIT);
    assert!(input.control(Action::Jump).pressed());
    assert_eq!(input.control(Action::Left).value(), 0);
}

#[test]
fn cloned_config_equals_its_source() {
    let source = config(250_000, DeadzoneShape::Square);
    let copy = source.clone();
    assert_eq!(copy, source);
    assert_eq!(copy.control_mapping.len(), 5);
    assert_eq!(copy.control_mapping[4], vec![key(Key::X), key(Key::Space), pad(GamepadInput::A)]);
    assert_eq!(copy.deadzone, 250_000);
    assert_eq!(copy.deadzone_shape, DeadzoneShape::Square);
}

#[test]
fn config_accessor_returns_the_settings() {
    let input = player(123_456, DeadzoneShape::Square);
    assert_eq!(*input.config(), config(123_456, DeadzoneShape::Square));
    assert_eq!(input.config().deadzone, 123_456);
    assert_eq!(input.config().deadzone_shape, DeadzoneShape::Square);
}

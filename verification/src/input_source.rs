use vstd::prelude::*;

verus! {

/// The device category an input source belongs to.
#[derive(Debug, Clone, Copy, PartialEq, Eq, Hash, Structural)]
pub enum InputKind {
    /// Input coming from a keyboard.
    Keyboard,
    /// Input coming from a gamepad.
    Gamepad,
}

/// A keyboard key.
#[derive(Debug, Clone, Copy, PartialEq, Eq, Hash, Structural)]
pub enum Key {
    A, B, C, D, E, F,
    G, H, I, J, K, L,
    M, N, O, P, Q, R,
    S, T, U, V, W, X,
    Y, Z, Num0, Num1, Num2, Num3,
    Num4, Num5, Num6, Num7, Num8, Num9,
    F1, F2, F3, F4, F5, F6,
    F7, F8, F9, F10, F11, F12,
    F13, F14, F15, F16, F17, F18,
    F19, F20, F21, F22, F23, F24,
    NumLock, NumPad1, NumPad2, NumPad3, NumPad4, NumPad5,
    NumPad6, NumPad7, NumPad8, NumPad9, NumPad0, NumPadPlus,
    NumPadMinus, NumPadMultiply, NumPadDivide, NumPadEnter, LeftCtrl, LeftShift,
    LeftAlt, RightCtrl, RightShift, RightAlt, Up, Down,
    Left, Right, Ampersand, Asterisk, At, Backquote,
    Backslash, Backspace, CapsLock, Caret, Colon, Comma,
    Delete, Dollar, DoubleQuote, End, Enter, Equals,
    Escape, Exclaim, GreaterThan, Hash, Home, Insert,
    LeftBracket, LeftParen, LessThan, Minus, PageDown, PageUp,
    Pause, Percent, Period, Plus, PrintScreen, Question,
    Quote, RightBracket, RightParen, ScrollLock, Semicolon, Slash,
    Space, Tab, Underscore,
}

/// A button on a gamepad.
#[derive(Debug, Clone, Copy, PartialEq, Eq, Hash, Structural)]
pub enum GamepadButton {
    A, B, X, Y,
    Up, Down, Left, Right,
    LeftShoulder, LeftTrigger, LeftStick,
    RightShoulder, RightTrigger, RightStick,
    Start, Back, Guide,
}

/// An analog axis on a gamepad. Stick axes move in both directions,
/// trigger axes only in the positive one.
#[derive(Debug, Clone, Copy, PartialEq, Eq, Hash, Structural)]
pub enum GamepadAxis {
    LeftStickX,
    LeftStickY,
    LeftTrigger,
    RightStickX,
    RightStickY,
    RightTrigger,
}

/// A direction an axis can be moved in.
#[derive(Debug, Clone, Copy, PartialEq, Eq, Hash, Structural)]
pub enum AxisDirection {
    /// Left or up on a gamepad stick.
    Negative,
    /// Right or down on a gamepad stick, or a trigger being squeezed.
    Positive,
}

/// A gamepad input under a flat name. Each direction of a stick axis is
/// an input of its own.
#[derive(Debug, Clone, Copy, PartialEq, Eq, Hash, Structural)]
pub enum GamepadInput {
    LeftStickLeft, LeftStickRight, LeftStickUp, LeftStickDown,
    RightStickLeft, RightStickRight, RightStickUp, RightStickDown,
    DpadLeft, DpadRight, DpadUp, DpadDown,
    A, B, X, Y,
    LeftShoulder, LeftTrigger, LeftStick,
    RightShoulder, RightTrigger, RightStick,
    Start, Back, Guide,
}

/// One physical control: a key, a gamepad button, or one direction of a
/// gamepad axis.
#[derive(Debug, Clone, Copy, PartialEq, Eq, Hash, Structural)]
pub enum InputSource {
    /// A keyboard key.
    Key(Key),
    /// A button on a gamepad.
    Button(GamepadButton),
    /// A gamepad axis filtered to movement in one direction.
    Axis(GamepadAxis, AxisDirection),
}

impl GamepadInput {
    /// The button behind this input, or `None` where the input is one
    /// direction of a stick, or a trigger, and so is read from an axis.
    pub open spec fn spec_button(self) -> Option<GamepadButton> {
        match self {
            GamepadInput::DpadLeft => Some(GamepadButton::Left),
            GamepadInput::DpadRight => Some(GamepadButton::Right),
            GamepadInput::DpadUp => Some(GamepadButton::Up),
            GamepadInput::DpadDown => Some(GamepadButton::Down),
            GamepadInput::A => Some(GamepadButton::A),
            GamepadInput::B => Some(GamepadButton::B),
            GamepadInput::X => Some(GamepadButton::X),
            GamepadInput::Y => Some(GamepadButton::Y),
            GamepadInput::LeftShoulder => Some(GamepadButton::LeftShoulder),
            GamepadInput::LeftStick => Some(GamepadButton::LeftStick),
            GamepadInput::RightShoulder => Some(GamepadButton::RightShoulder),
            GamepadInput::RightStick => Some(GamepadButton::RightStick),
            GamepadInput::Start => Some(GamepadButton::Start),
            GamepadInput::Back => Some(GamepadButton::Back),
            GamepadInput::Guide => Some(GamepadButton::Guide),
            _ => None,
        }
    }

    /// The axis and direction behind this input, or `None` where the
    /// input is a button.
    pub open spec fn spec_axis(self) -> Option<(GamepadAxis, AxisDirection)> {
        match self {
            GamepadInput::LeftStickLeft => Some((GamepadAxis::LeftStickX, AxisDirection::Negative)),
            GamepadInput::LeftStickRight => Some((GamepadAxis::LeftStickX, AxisDirection::Positive)),
            GamepadInput::LeftStickUp => Some((GamepadAxis::LeftStickY, AxisDirection::Negative)),
            GamepadInput::LeftStickDown => Some((GamepadAxis::LeftStickY, AxisDirection::Positive)),
            GamepadInput::RightStickLeft => Some((GamepadAxis::RightStickX, AxisDirection::Negative)),
            GamepadInput::RightStickRight => Some((GamepadAxis::RightStickX, AxisDirection::Positive)),
            GamepadInput::RightStickUp => Some((GamepadAxis::RightStickY, AxisDirection::Negative)),
            GamepadInput::RightStickDown => Some((GamepadAxis::RightStickY, AxisDirection::Positive)),
            GamepadInput::LeftTrigger => Some((GamepadAxis::LeftTrigger, AxisDirection::Positive)),
            GamepadInput::RightTrigger => Some((GamepadAxis::RightTrigger, AxisDirection::Positive)),
            _ => None,
        }
    }

    /// The input source that reads this input: its button where it has
    /// one, else its axis and direction.
    pub open spec fn spec_source(self) -> InputSource {
        match self.spec_button() {
            Some(button) => InputSource::Button(button),
            None => match self.spec_axis() {
                Some((axis, direction)) => InputSource::Axis(axis, direction),
                None => arbitrary(),
            },
        }
    }

    /// Every gamepad input is a button or an axis direction, never both.
    pub proof fn lemma_button_or_axis(self)
        ensures
            self.spec_button().is_some() != self.spec_axis().is_some(),
            self.spec_source().spec_kind() == InputKind::Gamepad,
    {
    }

    #[verifier::when_used_as_spec(spec_button)]
    pub fn button(self) -> (r: Option<GamepadButton>)
        ensures
            r == self.spec_button(),
    {
        match self {
            GamepadInput::DpadLeft => Some(GamepadButton::Left),
            GamepadInput::DpadRight => Some(GamepadButton::Right),
            GamepadInput::DpadUp => Some(GamepadButton::Up),
            GamepadInput::DpadDown => Some(GamepadButton::Down),
            GamepadInput::A => Some(GamepadButton::A),
            GamepadInput::B => Some(GamepadButton::B),
            GamepadInput::X => Some(GamepadButton::X),
            GamepadInput::Y => Some(GamepadButton::Y),
            GamepadInput::LeftShoulder => Some(GamepadButton::LeftShoulder),
            GamepadInput::LeftStick => Some(GamepadButton::LeftStick),
            GamepadInput::RightShoulder => Some(GamepadButton::RightShoulder),
            GamepadInput::RightStick => Some(GamepadButton::RightStick),
            GamepadInput::Start => Some(GamepadButton::Start),
            GamepadInput::Back => Some(GamepadButton::Back),
            GamepadInput::Guide => Some(GamepadButton::Guide),
            _ => None,
        }
    }

    #[verifier::when_used_as_spec(spec_source)]
    pub fn source(self) -> (r: InputSource)
        ensures
            r == self.spec_source(),
            r.spec_kind() == InputKind::Gamepad,
    {
        match self.button() {
            Some(button) => InputSource::Button(button),
            None => match self {
                GamepadInput::LeftStickLeft => InputSource::Axis(GamepadAxis::LeftStickX, AxisDirection::Negative),
                GamepadInput::LeftStickRight => InputSource::Axis(GamepadAxis::LeftStickX, AxisDirection::Positive),
                GamepadInput::LeftStickUp => InputSource::Axis(GamepadAxis::LeftStickY, AxisDirection::Negative),
                GamepadInput::LeftStickDown => InputSource::Axis(GamepadAxis::LeftStickY, AxisDirection::Positive),
                GamepadInput::RightStickLeft => InputSource::Axis(GamepadAxis::RightStickX, AxisDirection::Negative),
                GamepadInput::RightStickRight => InputSource::Axis(GamepadAxis::RightStickX, AxisDirection::Positive),
                GamepadInput::RightStickUp => InputSource::Axis(GamepadAxis::RightStickY, AxisDirection::Negative),
                GamepadInput::RightStickDown => InputSource::Axis(GamepadAxis::RightStickY, AxisDirection::Positive),
                GamepadInput::LeftTrigger => InputSource::Axis(GamepadAxis::LeftTrigger, AxisDirection::Positive),
                _ => InputSource::Axis(GamepadAxis::RightTrigger, AxisDirection::Positive),
            },
        }
    }
}

impl InputSource {
    /// Keys belong to the keyboard; buttons and axes to the gamepad.
    pub open spec fn spec_kind(&self) -> InputKind {
        match self {
            InputSource::Key(_) => InputKind::Keyboard,
            InputSource::Button(_) => InputKind::Gamepad,
            InputSource::Axis(_, _) => InputKind::Gamepad,
        }
    }

    /// Returns the kind of input this source is.
    #[verifier::when_used_as_spec(spec_kind)]
    pub fn kind(&self) -> (r: InputKind)
        ensures
            r == self.spec_kind(),
    {
        match self {
            InputSource::Key(_) => InputKind::Keyboard,
            InputSource::Button(_) => InputKind::Gamepad,
            InputSource::Axis(_, _) => InputKind::Gamepad,
        }
    }
}

impl From<Key> for InputSource {
    fn from(key: Key) -> (r: InputSource) {
        InputSource::Key(key)
    }
}

impl vstd::std_specs::convert::FromSpecImpl<Key> for InputSource {
    open spec fn obeys_from_spec() -> bool {
        true
    }

    open spec fn from_spec(key: Key) -> InputSource {
        InputSource::Key(key)
    }
}

impl From<GamepadButton> for InputSource {
    fn from(button: GamepadButton) -> (r: InputSource) {
        InputSource::Button(button)
    }
}

impl vstd::std_specs::convert::FromSpecImpl<GamepadButton> for InputSource {
    open spec fn obeys_from_spec() -> bool {
        true
    }

    open spec fn from_spec(button: GamepadButton) -> InputSource {
        InputSource::Button(button)
    }
}

impl From<(GamepadAxis, AxisDirection)> for InputSource {
    fn from(axis_and_direction: (GamepadAxis, AxisDirection)) -> (r: InputSource) {
        InputSource::Axis(axis_and_direction.0, axis_and_direction.1)
    }
}

impl vstd::std_specs::convert::FromSpecImpl<(GamepadAxis, AxisDirection)> for InputSource {
    open spec fn obeys_from_spec() -> bool {
        true
    }

    open spec fn from_spec(axis_and_direction: (GamepadAxis, AxisDirection)) -> InputSource {
        InputSource::Axis(axis_and_direction.0, axis_and_direction.1)
    }
}

impl From<GamepadInput> for InputSource {
    fn from(gamepad_input: GamepadInput) -> (r: InputSource) {
        gamepad_input.source()
    }
}

impl vstd::std_specs::convert::FromSpecImpl<GamepadInput> for InputSource {
    open spec fn obeys_from_spec() -> bool {
        true
    }

    open spec fn from_spec(gamepad_input: GamepadInput) -> InputSource {
        gamepad_input.spec_source()
    }
}

} // verus!

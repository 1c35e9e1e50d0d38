use vstd::prelude::*;
use crate::analog::{
    clamp_to_unit_length, exceeds_unit, lemma_unit_clamped, lemma_unit_clamped_reach,
    length_squared, magnitude, squared_length, unit_clamped, UNIT,
};
use crate::control::Control;

verus! {

/// The shape of the deadzone of a pair.
#[derive(Debug, Clone, Copy, PartialEq, Eq, Hash, Structural)]
pub enum DeadzoneShape {
    /// The whole vector is reported as zero unless its length reaches the
    /// deadzone.
    Circle,
    /// Each axis is reported as zero unless its own size reaches the
    /// deadzone.
    Square,
}

/// What a pair holds after a frame, each vector as `(x, y)`.
pub struct PairState {
    pub raw_value: (int, int),
    pub value: (int, int),
}

impl PairState {
    /// A pair that has never been updated.
    pub open spec fn at_rest() -> PairState {
        PairState { raw_value: (0, 0), value: (0, 0) }
    }
}

/// One axis under a square deadzone: itself where its size reaches the
/// deadzone, zero below it.
pub open spec fn axis_kept(c: int, deadzone: u32) -> int {
    if magnitude(c) >= deadzone {
        c
    } else {
        0
    }
}

/// Whether the length of the vector `(x, y)`, cut to unit length, reaches
/// the deadzone. A vector that had to be cut counts as being of length
/// `UNIT` exactly, whatever the rounding of its components lost.
pub open spec fn circle_reached(x: int, y: int, deadzone: u32) -> bool {
    if exceeds_unit(x, y) {
        UNIT >= deadzone
    } else {
        length_squared(x, y) >= deadzone * deadzone
    }
}

/// The pair that four controls make up: `x` is right minus left, `y` is
/// down minus up, the vector is cut to unit length, and the deadzone is
/// applied in the given shape.
pub open spec fn pair_composed(
    left: u32,
    right: u32,
    up: u32,
    down: u32,
    deadzone: u32,
    shape: DeadzoneShape,
) -> PairState {
    let x = right - left;
    let y = down - up;
    let raw = unit_clamped(x, y);
    PairState {
        raw_value: raw,
        value: match shape {
            DeadzoneShape::Circle => if circle_reached(x, y, deadzone) {
                raw
            } else {
                (0, 0)
            },
            DeadzoneShape::Square => (axis_kept(raw.0, deadzone), axis_kept(raw.1, deadzone)),
        },
    }
}

/// Neither vector of a pair is ever longer than full deflection, and a pair
/// whose opposite controls cancel out is at rest.
pub proof fn lemma_pair_within_unit(
    left: u32,
    right: u32,
    up: u32,
    down: u32,
    deadzone: u32,
    shape: DeadzoneShape,
)
    ensures
        ({
            let pair = pair_composed(left, right, up, down, deadzone, shape);
            &&& length_squared(pair.raw_value.0, pair.raw_value.1) <= UNIT * UNIT
            &&& length_squared(pair.value.0, pair.value.1) <= UNIT * UNIT
            &&& magnitude(pair.raw_value.0) <= UNIT
            &&& magnitude(pair.raw_value.1) <= UNIT
            &&& (left == right && up == down ==> pair.raw_value == (0int, 0int) && pair.value == (
                0int,
                0int,
            ))
        }),
{
    let x = right - left;
    let y = down - up;
    lemma_unit_clamped(x, y);
    let raw = unit_clamped(x, y);
    let pair = pair_composed(left, right, up, down, deadzone, shape);
    let vx = pair.value.0;
    let vy = pair.value.1;
    assert(vx * vx <= raw.0 * raw.0 && vy * vy <= raw.1 * raw.1) by (nonlinear_arith)
        requires
            vx == raw.0 || vx == 0,
            vy == raw.1 || vy == 0,
    ;
    assert(vx * vx >= 0 && vy * vy >= 0) by (nonlinear_arith);
    if left == right && up == down {
        assert(x * x + y * y == 0) by (nonlinear_arith)
            requires
                x == 0,
                y == 0,
        ;
    }
}

/// Cutting a pair to unit length keeps its direction: no component changes
/// sign or grows, and a diagonal stays a diagonal. A pair that had to be
/// cut is all but of unit length afterwards.
pub proof fn lemma_pair_keeps_direction(
    left: u32,
    right: u32,
    up: u32,
    down: u32,
    deadzone: u32,
    shape: DeadzoneShape,
)
    ensures
        ({
            let pair = pair_composed(left, right, up, down, deadzone, shape);
            let x = right - left;
            let y = down - up;
            &&& (x >= 0 ==> pair.raw_value.0 >= 0)
            &&& (x <= 0 ==> pair.raw_value.0 <= 0)
            &&& (y >= 0 ==> pair.raw_value.1 >= 0)
            &&& (y <= 0 ==> pair.raw_value.1 <= 0)
            &&& magnitude(pair.raw_value.0) <= magnitude(x)
            &&& magnitude(pair.raw_value.1) <= magnitude(y)
            &&& (x == y ==> pair.raw_value.0 == pair.raw_value.1)
            &&& (!exceeds_unit(x, y) ==> pair.raw_value == (x, y))
            &&& (exceeds_unit(x, y) ==> length_squared(pair.raw_value.0, pair.raw_value.1) >= (UNIT
                - 4) * (UNIT - 4))
        }),
{
    lemma_unit_clamped(right - left, down - up);
    if exceeds_unit(right - left, down - up) {
        lemma_unit_clamped_reach(right - left, down - up);
    }
}

/// Input data for a horizontal and a vertical axis.
#[derive(Debug, Clone, Copy, PartialEq, Eq)]
pub struct Pair {
    raw_value: (i32, i32),
    value: (i32, i32),
}

impl View for Pair {
    type V = PairState;

    closed spec fn view(&self) -> PairState {
        PairState {
            raw_value: (self.raw_value.0 as int, self.raw_value.1 as int),
            value: (self.value.0 as int, self.value.1 as int),
        }
    }
}

impl Pair {
    /// A pair at rest.
    pub fn new() -> (pair: Pair)
        ensures
            pair@ == PairState::at_rest(),
    {
        Pair { raw_value: (0, 0), value: (0, 0) }
    }

    /// Derives the pair from the raw values of its four controls.
    pub fn update(
        &mut self,
        left: &Control,
        right: &Control,
        up: &Control,
        down: &Control,
        deadzone: u32,
        deadzone_shape: DeadzoneShape,
    )
        ensures
            final(self)@ == pair_composed(
                left@.raw_value,
                right@.raw_value,
                up@.raw_value,
                down@.raw_value,
                deadzone,
                deadzone_shape,
            ),
            length_squared(final(self)@.raw_value.0, final(self)@.raw_value.1) <= UNIT * UNIT,
            length_squared(final(self)@.value.0, final(self)@.value.1) <= UNIT * UNIT,
    {
        proof {
            lemma_pair_within_unit(
                left@.raw_value,
                right@.raw_value,
                up@.raw_value,
                down@.raw_value,
                deadzone,
                deadzone_shape,
            );
        }
        let x: i32 = right.raw_value() as i32 - left.raw_value() as i32;
        let y: i32 = down.raw_value() as i32 - up.raw_value() as i32;
        let raw = clamp_to_unit_length(x, y);
        let value = match deadzone_shape {
            DeadzoneShape::Circle => {
                let n = squared_length(x, y);
                let unit: u64 = UNIT as u64;
                let threshold: u64 = deadzone as u64;
                assert(threshold * threshold <= 0xFFFF_FFFF * 0xFFFF_FFFF) by (nonlinear_arith)
                    requires
                        0 <= threshold <= 0xFFFF_FFFF,
                ;
                let reached = if n > unit * unit {
                    UNIT >= deadzone
                } else {
                    n >= threshold * threshold
                };
                if reached {
                    raw
                } else {
                    (0, 0)
                }
            },
            DeadzoneShape::Square => (keep_axis(raw.0, deadzone), keep_axis(raw.1, deadzone)),
        };
        self.raw_value = raw;
        self.value = value;
    }

    /// Returns the value of the pair without deadzone applied, as `(x, y)`.
    pub fn raw_value(&self) -> (r: (i32, i32))
        ensures
            (r.0 as int, r.1 as int) == self@.raw_value,
    {
        self.raw_value
    }

    /// Returns the value of the pair with deadzone applied, as `(x, y)`.
    pub fn value(&self) -> (r: (i32, i32))
        ensures
            (r.0 as int, r.1 as int) == self@.value,
    {
        self.value
    }
}

/// Applies a square deadzone to one axis.
fn keep_axis(c: i32, deadzone: u32) -> (r: i32)
    ensures
        r as int == axis_kept(c as int, deadzone),
{
    let size: i64 = if c >= 0 {
        c as i64
    } else {
        -(c as i64)
    };
    if size >= deadzone as i64 {
        c
    } else {
        0
    }
}

impl Default for Pair {
    fn default() -> (pair: Pair)
        ensures
            pair@ == PairState::at_rest(),
    {
        Pair::new()
    }
}

} // verus!
